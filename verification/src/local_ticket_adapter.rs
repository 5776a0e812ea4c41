//! What the adapter for tickets in a local database decides before it turns
//! to the database: how it is configured, which filters it has of its own,
//! whether a filter expression is in order, and which query selects the
//! tickets of an expression.

use vstd::prelude::*;
use crate::adapter_error::{AdapterError, AdapterErrorType};
use crate::bucket::Bucket;
use crate::config_base::Config;
use crate::config_option::ConfigOptionModel;
use crate::filter::{addressed_expression, Filter, FilterType};
use crate::interpreter::AdapterInterpreter;
use crate::interpreter_errors::error_rendering;
use crate::language::{
    after_tokenizing,
    constructed,
    filter_tokenized,
    Allowance,
    Environment,
    InterpreterState,
};
use crate::text::concat3;
use crate::adapter_registry::{default_config, get_default_config, option_of};
use crate::validation::finding_texts;

verus! {

/// The name of the type of the adapter.
pub open spec fn local_type_name() -> Seq<char> {
    "local"@
}

/// The name under which the type of the adapter is shown.
pub open spec fn local_fancy_type_name() -> Seq<char> {
    "Local Tickets"@
}

/// The name of the type of the adapter.
pub fn get_type_name() -> (r: String)
    ensures
        r@ == local_type_name(),
{
    "local".to_string()
}

/// The name under which the type of the adapter is shown.
pub fn get_fancy_type_name() -> (r: String)
    ensures
        r@ == local_fancy_type_name(),
{
    "Local Tickets".to_string()
}

/// Creates the configuration that a new adapter begins with: the options of
/// every adapter, the file of the database, and whether the database is to
/// be filled with examples.
pub fn create_config(number: u128) -> (r: Config)
    ensures
        r@ == default_config(local_type_name(), local_fancy_type_name(), number as nat).insert(
            "database"@,
            option_of("./local.db3"@, "string"@),
        ).insert("include_default_data"@, option_of("true"@, "bool"@)),
{
    get_default_config(get_type_name(), get_fancy_type_name(), number).with(
        "database",
        "./local.db3",
        "string",
    ).with("include_default_data", true, "bool")
}

/// What an adapter is made from.
pub struct LocalSettings {
    pub name: String,
    pub display_name: String,
    pub create_default_data: bool,
    pub database_name: String,
}

/// Whether a configuration has what an adapter is made from: a name, a name
/// to show, the file of the database, and `true` or `false` for whether the
/// database is to be filled with examples.
pub open spec fn is_complete(config: Map<Seq<char>, ConfigOptionModel>) -> bool {
    &&& config.contains_key("name"@)
    &&& config.contains_key("display"@)
    &&& config.contains_key("database"@)
    &&& config.contains_key("include_default_data"@)
    &&& (config["include_default_data"@].value == "true"@ || config["include_default_data"@].value
        == "false"@)
}

/// Reads from a configuration what an adapter is made from. The adapter
/// cannot be made where something is missing.
pub fn settings_from_config(config: &Config) -> (r: Result<LocalSettings, AdapterError>)
    ensures
        match r {
            Ok(settings) => {
                &&& is_complete(config@)
                &&& settings.name@ == config@["name"@].value
                &&& settings.display_name@ == config@["display"@].value
                &&& settings.database_name@ == config@["database"@].value
                &&& settings.create_default_data == (config@["include_default_data"@].value
                    == "true"@)
            },
            Err(error) => !is_complete(config@) && error.error_type is Instantiation,
        },
{
    let name: String = match config.get("name") {
        Some(option) => match option.get() {
            Some(result) => result,
            None => {
                return Err(AdapterError::new(AdapterErrorType::Instantiation));
            },
        },
        None => {
            return Err(AdapterError::new(AdapterErrorType::Instantiation));
        },
    };
    let display_name: String = match config.get("display") {
        Some(option) => match option.get() {
            Some(result) => result,
            None => {
                return Err(AdapterError::new(AdapterErrorType::Instantiation));
            },
        },
        None => {
            return Err(AdapterError::new(AdapterErrorType::Instantiation));
        },
    };
    let create_default_data: bool = match config.get("include_default_data") {
        Some(option) => match option.get() {
            Some(result) => result,
            None => {
                return Err(AdapterError::new(AdapterErrorType::Instantiation));
            },
        },
        None => {
            return Err(AdapterError::new(AdapterErrorType::Instantiation));
        },
    };
    let database_name: String = match config.get("database") {
        Some(option) => match option.get() {
            Some(result) => result,
            None => {
                return Err(AdapterError::new(AdapterErrorType::Instantiation));
            },
        },
        None => {
            return Err(AdapterError::new(AdapterErrorType::Instantiation));
        },
    };
    proof {
        reveal_strlit("true");
        reveal_strlit("false");
    }
    Ok(LocalSettings { name, display_name, create_default_data, database_name })
}

/// The filter that lists the tickets of one bucket.
pub open spec fn is_bucket_filter(filter: Filter, adapter: Seq<char>, bucket: Bucket) -> bool {
    &&& filter.identifier.adapter@ == adapter
    &&& filter.identifier.name@ == bucket.name@
    &&& filter.operation@ == addressed_expression(
        adapter,
        "in_bucket("@ + bucket.name@ + ")"@,
    )
    &&& filter.filter_type == FilterType::Bucket(bucket.identifier.id)
}

/// The filters that the adapter has of its own: for each bucket one that
/// lists the tickets in it.
pub fn list_builtin_filters(adapter_name: &String, buckets: &Vec<Bucket>) -> (r: Vec<Filter>)
    ensures
        r@.len() == buckets@.len(),
        forall|i: int| 0 <= i < r@.len() ==> is_bucket_filter(r@[i], adapter_name@, buckets@[i]),
{
    let mut filters: Vec<Filter> = Vec::new();
    let mut i: usize = 0;
    while i < buckets.len()
        invariant
            i <= buckets.len(),
            filters@.len() == i,
            forall|j: int|
                0 <= j < i ==> is_bucket_filter(filters@[j], adapter_name@, buckets@[j]),
        decreases buckets.len() - i,
    {
        let bucket = &buckets[i];
        let inner = concat3("in_bucket(", bucket.name.as_str(), ")");
        let filter = Filter::default().with_details(
            bucket.name.clone(),
            Filter::filter_expression(adapter_name.clone(), inner.as_str()),
        ).with_type(FilterType::Bucket(bucket.identifier.id)).with_adapter_name(
            adapter_name.clone(),
        );
        filters.push(filter);
        i += 1;
    }
    filters
}

/// The configuration once the name of the user was asked for: it has the
/// option `username`, with the name `new User` where it had none.
pub open spec fn with_username(config: Map<Seq<char>, ConfigOptionModel>) -> Map<
    Seq<char>,
    ConfigOptionModel,
> {
    if config.contains_key("username"@) {
        config
    } else {
        config.insert("username"@, option_of("new User"@, ""@))
    }
}

/// The environment in which the expressions of the adapter are compiled: the
/// variable `me` is the name of the user.
pub open spec fn local_environment(config: Map<Seq<char>, ConfigOptionModel>) -> Environment {
    Map::<Seq<char>, Seq<char>>::empty().insert("me"@, with_username(config)["username"@].value)
}

/// Tells whether a filter expression can be tokenized. Where it cannot, the
/// failure is returned as it is shown, as a finding on the operation.
pub fn filter_expression_validate(config: &mut Config, filter: &String) -> (r: Result<
    (),
    Vec<(String, String)>,
>)
    ensures
        final(config)@ == with_username(old(config)@),
        match filter_tokenized(local_environment(old(config)@), filter@).0 {
            Ok(_) => r is Ok,
            Err(message) => r matches Err(findings) && finding_texts(findings@) == seq![
                ("operation"@, error_rendering(message)),
            ],
        },
{
    let mut interpreter = AdapterInterpreter::default();
    interpreter.setup_environment(config);
    match interpreter.try_tokenize(filter.clone()) {
        Ok(_) => Ok(()),
        Err(token_error) => {
            let mut validation_errors: Vec<(String, String)> = Vec::new();
            validation_errors.push(("operation".to_string(), token_error.to_string()));
            proof {
                assert(finding_texts(validation_errors@) =~= seq![
                    ("operation"@, error_rendering(token_error@)),
                ]);
            }
            Err(validation_errors)
        },
    }
}

/// The query that selects the tickets of an expression, or the failure of
/// tokenizing it or of generating the query, as it is shown.
pub open spec fn ticket_query(env: Environment, expression: Seq<char>) -> Result<Seq<char>, Seq<char>> {
    let start = InterpreterState {
        env,
        pending: Seq::empty(),
        last_error: None,
        allowance: Allowance::fresh(),
    };
    match filter_tokenized(env, expression).0 {
        Err(message) => Err(error_rendering(message)),
        Ok(_) => match constructed(after_tokenizing(start, expression)) {
            Ok(sql) => Ok(sql),
            Err(message) => Err(error_rendering(message)),
        },
    }
}

/// Compiles an expression to the query that selects its tickets. A failure
/// is an error of the expression, with the failure as it is shown for reason.
pub fn ticket_list_query(config: &mut Config, expression: &str) -> (r: Result<String, AdapterError>)
    ensures
        final(config)@ == with_username(old(config)@),
        match ticket_query(local_environment(old(config)@), expression@) {
            Ok(sql) => r matches Ok(text) && text@ == sql,
            Err(reason) => r matches Err(error) && error.error_type
                matches AdapterErrorType::Expression(text) && text@ == reason,
        },
{
    let mut interpreter = AdapterInterpreter::default();
    interpreter.setup_environment(config);
    if let Err(error) = interpreter.try_tokenize(expression.to_string()) {
        return Err(AdapterError::new(AdapterErrorType::Expression(error.to_string())));
    }
    match interpreter.construct_sql() {
        Ok(expr) => Ok(expr),
        Err(err) => Err(AdapterError::new(AdapterErrorType::Expression(err.to_string()))),
    }
}

} // verus!
