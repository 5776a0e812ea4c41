//! Filters: named expressions that select tickets.

use vstd::prelude::*;

verus! {

/// What kind a filter is of, which decides what can be done with it.
#[derive(PartialEq, Clone)]
pub enum FilterType {
    User,
    Builtin,
    Bucket(u64),
    Tag,
    Other,
}

impl Default for FilterType {
    fn default() -> (r: Self)
        ensures
            r == FilterType::Builtin,
    {
        FilterType::Builtin
    }
}

/// What tells one filter from all others: the adapter it comes from and its name.
#[derive(PartialEq, Clone)]
pub struct FilterIdentifier {
    pub adapter: String,
    pub name: String,
}

impl Default for FilterIdentifier {
    fn default() -> (r: Self)
        ensures
            r.adapter@ == Seq::<char>::empty(),
            r.name@ == Seq::<char>::empty(),
    {
        FilterIdentifier { adapter: String::new(), name: String::new() }
    }
}

/// A filter limits which tickets are listed. Its operation is a chain of
/// expressions, each addressed to one adapter: `[[adapter: expression]]`.
#[derive(PartialEq, Clone)]
pub struct Filter {
    pub identifier: FilterIdentifier,
    pub operation: String,
    pub filter_type: FilterType,
}

impl Default for Filter {
    fn default() -> (r: Self)
        ensures
            r.identifier.adapter@ == Seq::<char>::empty(),
            r.identifier.name@ == Seq::<char>::empty(),
            r.operation@ == Seq::<char>::empty(),
            r.filter_type == FilterType::Builtin,
    {
        Filter {
            identifier: FilterIdentifier::default(),
            operation: String::new(),
            filter_type: FilterType::default(),
        }
    }
}

/// An expression addressed to one adapter, as it stands in a filter's operation.
pub open spec fn addressed_expression(adapter: Seq<char>, inner_expression: Seq<char>) -> Seq<
    char,
> {
    "[["@ + adapter + ": "@ + inner_expression + "]]"@
}

impl Filter {
    /// The filter as one of the adapter with the given name.
    pub fn with_adapter_name(self, adapter: String) -> (r: Filter)
        ensures
            r == (Filter { identifier: FilterIdentifier { adapter, ..self.identifier }, ..self }),
    {
        let mut filter = self;
        filter.identifier.adapter = adapter;
        filter
    }

    /// The filter with the given type.
    pub fn with_type(self, filter_type: FilterType) -> (r: Filter)
        ensures
            r == (Filter { filter_type, ..self }),
    {
        let mut filter = self;
        filter.filter_type = filter_type;
        filter
    }

    /// The filter with the given name and operation.
    pub fn with_details(self, name: String, operation: String) -> (r: Filter)
        ensures
            r == (Filter {
                identifier: FilterIdentifier { name, ..self.identifier },
                operation,
                ..self
            }),
    {
        let mut filter = self;
        filter.identifier.name = name;
        filter.operation = operation;
        filter
    }

    /// An expression addressed to an adapter, as it stands in the operation of a filter.
    pub fn filter_expression(adapter: String, inner_expression: &str) -> (r: String)
        ensures
            r@ == addressed_expression(adapter@, inner_expression@),
    {
        let mut expression = "[[".to_string();
        expression.append(adapter.as_str());
        expression.append(": ");
        expression.append(inner_expression);
        expression.append("]]");
        expression
    }
}

} // verus!
