//! How the adapters stand in the configuration of the application: each with
//! its options as a sub-configuration, and all by name in one list.

use vstd::prelude::*;
use crate::adapter_error::{
    AdapterError,
    AdapterErrorType,
};
use crate::config_base::{
    as_sub_config,
    outside_sub_config,
    sub_config_of,
    Config,
};
use crate::config_option::{
    list_separator,
    ConfigOptionModel,
};
use crate::text::{
    concat2,
    decimal_nat,
    joined,
    lemma_occurrence,
    occurrence,
    render_u128,
    split_on_text,
    text_equals,
    texts,
};

verus! {

/// An option with the given value and hint.
pub open spec fn option_of(value: Seq<char>, display_options: Seq<char>) -> ConfigOptionModel {
    ConfigOptionModel { value, display_options }
}

/// The configuration that every adapter begins with: its type, a name made
/// of the type and a number, and the name under which the type is shown.
pub open spec fn default_config(
    kind: Seq<char>,
    fancy_kind: Seq<char>,
    number: nat,
) -> Map<Seq<char>, ConfigOptionModel> {
    Map::<Seq<char>, ConfigOptionModel>::empty().insert(
        "type"@,
        option_of(kind, "readonly_string"@),
    ).insert("name"@, option_of(kind + "_"@ + decimal_nat(number), "string"@)).insert(
        "display"@,
        option_of(fancy_kind, "string"@),
    )
}

/// Creates the configuration that an adapter of the given type begins with.
/// The name of the adapter is made of the type and the given number, for
/// which the time in milliseconds is meant, so that names differ.
pub fn get_default_config(kind: String, fancy_kind: String, number: u128) -> (r: Config)
    ensures
        r@ == default_config(kind@, fancy_kind@, number as nat),
{
    let mut random_identifier = concat2(kind.as_str(), "_");
    random_identifier.append(render_u128(number).as_str());
    Config::default().with("type", kind, "readonly_string").with(
        "name",
        random_identifier,
        "string",
    ).with("display", fancy_kind, "string")
}

/// The type of the adapter that a configuration describes, if it names one.
pub fn adapter_type_of(config: &Config) -> (r: Result<String, AdapterError>)
    ensures
        match r {
            Ok(kind) => config@.contains_key("type"@) && kind@ == config@["type"@].value,
            Err(error) => !config@.contains_key("type"@) && error.error_type is Instantiation,
        },
{
    match config.get("type") {
        Some(option) => match option.get::<String>() {
            Some(kind) => Ok(kind),
            None => Err(AdapterError::new(AdapterErrorType::Instantiation)),
        },
        None => Err(AdapterError::new(AdapterErrorType::Instantiation)),
    }
}

/// The name under which the configuration of an adapter is kept in the
/// configuration of the application.
pub open spec fn adapter_section(adapter_name: Seq<char>) -> Seq<char> {
    "adapters:"@ + adapter_name
}

/// The value of the option that lists the adapters, empty where there is none.
pub open spec fn listed_adapters(config: Map<Seq<char>, ConfigOptionModel>) -> Seq<char> {
    if config.contains_key("adapters"@) {
        config["adapters"@].value
    } else {
        Seq::empty()
    }
}

/// The list of adapters with one more name at its end.
pub open spec fn with_listed(list: Seq<char>, adapter_name: Seq<char>) -> Seq<char> {
    if list.len() == 0 {
        adapter_name
    } else {
        list + list_separator() + adapter_name
    }
}

/// The configuration of the application with one more adapter: the options
/// of the adapter as a sub-configuration, and its name at the end of the list
/// of adapters.
pub open spec fn with_adapter(
    config: Map<Seq<char>, ConfigOptionModel>,
    adapter: Map<Seq<char>, ConfigOptionModel>,
    adapter_name: Seq<char>,
) -> Map<Seq<char>, ConfigOptionModel> {
    let kept = config.union_prefer_right(as_sub_config(adapter, adapter_section(adapter_name)));
    kept.insert(
        "adapters"@,
        option_of(with_listed(listed_adapters(kept), adapter_name), Seq::empty()),
    )
}

/// Writes the configuration of an adapter into that of the application, and
/// puts its name at the end of the list of adapters.
pub fn register_adapter(config: &mut Config, adapter: &Config, adapter_name: &str)
    ensures
        final(config)@ == with_adapter(old(config)@, adapter@, adapter_name@),
{
    let section = concat2("adapters:", adapter_name);
    config.put_sub_config(adapter, section.as_str());
    let ghost kept = config@;
    let mut old_adapters_list = config.get_or_default("adapters", "", "").raw().clone();
    if old_adapters_list.as_str().is_empty() {
        old_adapters_list.append(adapter_name);
        proof {
            assert(old_adapters_list@ =~= adapter_name@);
        }
    } else {
        old_adapters_list.append("|||");
        old_adapters_list.append(adapter_name);
    }
    config.put("adapters", old_adapters_list, "");
    proof {
        reveal_strlit("");
        assert(""@ =~= Seq::<char>::empty());
        assert(config@ =~= with_adapter(old(config)@, adapter@, adapter_name@));
    }
}

/// The last place at which a name stands in a list, if it stands in it.
pub open spec fn last_place(names: Seq<Seq<char>>, name: Seq<char>) -> Option<int>
    decreases names.len(),
{
    if names.len() == 0 {
        None
    } else if names.last() == name {
        Some(names.len() - 1)
    } else {
        last_place(names.drop_last(), name)
    }
}

/// The list of adapters without the last occurrence of a name.
pub open spec fn without_listed(list: Seq<char>, adapter_name: Seq<char>) -> Seq<char> {
    let names = split_on_text(list, list_separator());
    match last_place(names, adapter_name) {
        Some(at) => joined(names.remove(at), list_separator()),
        None => list,
    }
}

/// The configuration of the application without an adapter: without the
/// options of the adapter, and without its name in the list of adapters,
/// which is there in any case.
pub open spec fn without_adapter(
    config: Map<Seq<char>, ConfigOptionModel>,
    adapter_name: Seq<char>,
) -> Map<Seq<char>, ConfigOptionModel> {
    let kept = config.restrict(outside_sub_config(adapter_section(adapter_name)));
    if kept.contains_key("adapters"@) {
        if last_place(split_on_text(kept["adapters"@].value, list_separator()), adapter_name)
            is Some {
            kept.insert(
                "adapters"@,
                option_of(without_listed(kept["adapters"@].value, adapter_name), Seq::empty()),
            )
        } else {
            kept
        }
    } else {
        kept.insert("adapters"@, option_of(Seq::empty(), Seq::empty()))
    }
}

/// Where a name stands last in a list of names.
fn find_last(names: &Vec<String>, name: &str) -> (r: Option<usize>)
    ensures
        match r {
            Some(at) => last_place(texts(names@), name@) == Some(at as int) && at < names@.len(),
            None => last_place(texts(names@), name@) is None,
        },
{
    let mut found_index: Option<usize> = None;
    let mut i: usize = 0;
    proof {
        assert(texts(names@).take(0) =~= Seq::<Seq<char>>::empty());
    }
    while i < names.len()
        invariant
            i <= names.len(),
            match found_index {
                Some(at) => last_place(texts(names@).take(i as int), name@) == Some(at as int) && at
                    < i,
                None => last_place(texts(names@).take(i as int), name@) is None,
            },
        decreases names.len() - i,
    {
        proof {
            assert(texts(names@).take(i + 1).drop_last() =~= texts(names@).take(i as int));
            assert(texts(names@).take(i + 1).last() == names@[i as int]@);
        }
        if text_equals(name, names[i].as_str()) {
            found_index = Some(i);
        }
        i += 1;
    }
    proof {
        assert(texts(names@).take(i as int) =~= texts(names@));
    }
    found_index
}

/// Takes an adapter out of the configuration of the application: its
/// options, and its name where it stands last in the list of adapters.
pub fn unregister_adapter(config: &mut Config, adapter_name: &str)
    requires
        old(config)@.len() <= u32::MAX,
    ensures
        final(config)@ == without_adapter(old(config)@, adapter_name@),
{
    let corrected_name = concat2("adapters:", adapter_name);
    config.drop_sub_config(corrected_name.as_str());
    let ghost kept = config@;
    if let Some(adapters_vec) = config.get_or_default("adapters", "", "").get::<Vec<String>>() {
        let mut adapters_vec = adapters_vec;
        if let Some(found_index) = find_last(&adapters_vec, adapter_name) {
            let ghost names = texts(adapters_vec@);
            adapters_vec.remove(found_index);
            proof {
                assert(texts(adapters_vec@) =~= names.remove(found_index as int));
            }
            config.put("adapters", adapters_vec, "");
        }
    }
    proof {
        reveal_strlit("");
        reveal_strlit("|||");
        assert(""@ =~= Seq::<char>::empty());
        if !kept.contains_key("adapters"@) {
            let nothing = Seq::<char>::empty();
            lemma_occurrence(nothing, list_separator());
            assert(split_on_text(nothing, list_separator()) =~= seq![nothing]);
            if adapter_name@.len() == 0 {
                assert(adapter_name@ =~= nothing);
                assert(last_place(seq![nothing], nothing) == Some(0int));
                assert(seq![nothing].remove(0) =~= Seq::<Seq<char>>::empty());
            } else {
                reveal_with_fuel(last_place, 2);
                assert(seq![nothing].drop_last() =~= Seq::<Seq<char>>::empty());
                assert(last_place(seq![nothing], adapter_name@) is None);
            }
        }
        assert(config@ =~= without_adapter(old(config)@, adapter_name@));
    }
}

/// The configuration of the application once its adapters were asked for: it
/// has the list of adapters, which is empty where it had none.
pub open spec fn with_adapter_list(config: Map<Seq<char>, ConfigOptionModel>) -> Map<
    Seq<char>,
    ConfigOptionModel,
> {
    if config.contains_key("adapters"@) {
        config
    } else {
        config.insert("adapters"@, option_of(Seq::empty(), Seq::empty()))
    }
}

/// The names in the list of adapters that are not empty, in order.
pub open spec fn named_adapters(names: Seq<Seq<char>>) -> Seq<Seq<char>>
    decreases names.len(),
{
    if names.len() == 0 {
        Seq::empty()
    } else if names.last().len() > 0 {
        named_adapters(names.drop_last()).push(names.last())
    } else {
        named_adapters(names.drop_last())
    }
}

/// The adapters that the configuration of the application lists, each with
/// its own configuration. Empty names are passed over.
pub fn adapter_configs(config: &mut Config) -> (r: Vec<(String, Config)>)
    ensures
        final(config)@ == with_adapter_list(old(config)@),
        r@.len() == named_adapters(
            split_on_text(listed_adapters(old(config)@), list_separator()),
        ).len(),
        forall|i: int|
            0 <= i < r@.len() ==> (#[trigger] r@[i]).0@ == named_adapters(
                split_on_text(listed_adapters(old(config)@), list_separator()),
            )[i] && r@[i].1@ == sub_config_of(final(config)@, adapter_section(r@[i].0@)),
{
    let no_adapters: Vec<String> = Vec::new();
    proof {
        reveal_strlit("");
        assert(""@ =~= Seq::<char>::empty());
        assert(texts(no_adapters@) =~= Seq::<Seq<char>>::empty());
    }
    let adapters_vec: Vec<String> = match config.get_or_default("adapters", no_adapters, "").get() {
        Some(adapters_vec) => adapters_vec,
        None => Vec::new(),
    };
    let ghost names = texts(adapters_vec@);
    let mut found: Vec<(String, Config)> = Vec::new();
    let mut i: usize = 0;
    proof {
        assert(names.take(0) =~= Seq::<Seq<char>>::empty());
    }
    while i < adapters_vec.len()
        invariant
            i <= adapters_vec.len(),
            names == texts(adapters_vec@),
            config@ == with_adapter_list(old(config)@),
            found@.len() == named_adapters(names.take(i as int)).len(),
            forall|j: int|
                0 <= j < found@.len() ==> (#[trigger] found@[j]).0@ == named_adapters(
                    names.take(i as int),
                )[j] && found@[j].1@ == sub_config_of(config@, adapter_section(found@[j].0@)),
        decreases adapters_vec.len() - i,
    {
        let ghost seen = names.take(i as int);
        proof {
            assert(names.take(i + 1).drop_last() =~= seen);
            assert(names.take(i + 1).last() == adapters_vec@[i as int]@);
        }
        if !adapters_vec[i].as_str().is_empty() {
            let section = concat2("adapters:", adapters_vec[i].as_str());
            let adapter_config = config.get_sub_config(section.as_str());
            found.push((adapters_vec[i].clone(), adapter_config));
        }
        i += 1;
    }
    proof {
        assert(names.take(i as int) =~= names);
    }
    found
}

} // verus!
