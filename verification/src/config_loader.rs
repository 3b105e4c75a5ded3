//! Rules that a project configuration must meet beyond its shape.

use crate::error::{KanbusError, KanbusErrorView};
use crate::models::{clone_strings, ConfigurationView, ProjectConfiguration};
use crate::text::{
    chars_of, contains, contains_chars, is_blank, is_blank_chars, join, join_strings, owned,
    same_text,
};
use crate::text_map::TextMap;
use vstd::prelude::*;

verus! {

/// Whether some text occurs twice in `names`.
pub open spec fn has_duplicate(names: Seq<Seq<char>>) -> bool {
    exists|i: int, j: int| 0 <= i < j < names.len() && #[trigger] names[i] == #[trigger] names[j]
}

/// `message` if `failed`, else nothing.
pub open spec fn complaint(failed: bool, message: Seq<char>) -> Seq<Seq<char>> {
    if failed {
        seq![message]
    } else {
        Seq::empty()
    }
}

/// The complaints about a configuration, in the order of the rules: the
/// project directory must be named, the hierarchy must not be empty, no type
/// name may occur twice in hierarchy and types together, there must be a
/// workflow named `default`, and the default priority must be one of the
/// priorities.
pub open spec fn configuration_errors(c: ConfigurationView) -> Seq<Seq<char>> {
    complaint(is_blank(c.project_directory), "project_directory must not be empty"@) + complaint(
        c.hierarchy.len() == 0,
        "hierarchy must not be empty"@,
    ) + complaint(has_duplicate(c.hierarchy + c.types), "duplicate type name"@) + complaint(
        !c.workflow_names.contains("default"@),
        "default workflow is required"@,
    ) + complaint(
        !c.priority_levels.contains(c.default_priority),
        "default priority must be in priorities map"@,
    )
}

/// Adds `message` to `errors` if `failed`.
fn complain(errors: &mut Vec<String>, failed: bool, message: &str)
    ensures
        final(errors).deep_view() == old(errors).deep_view() + complaint(failed, message@),
{
    if failed {
        let ghost before = errors.deep_view();
        errors.push(owned(message));
        proof {
            assert(errors.deep_view() =~= before.push(message@));
            assert(before.push(message@) =~= before + seq![message@]);
        }
    } else {
        proof {
            assert(errors.deep_view() + Seq::<Seq<char>>::empty() == errors.deep_view());
        }
    }
}

/// Whether some name occurs twice in `names`.
pub fn has_duplicate_names(names: &Vec<String>) -> (out: bool)
    ensures
        out == has_duplicate(names.deep_view()),
{
    let ghost all = names.deep_view();
    let mut seen: TextMap<()> = TextMap::new();
    let mut i: usize = 0;
    while i < names.len()
        invariant
            i <= names.len(),
            all == names.deep_view(),
            forall|name: Seq<char>| #[trigger]
                seen@.dom().contains(name) <==> all.take(i as int).contains(name),
            forall|a: int, b: int| 0 <= a < b < i ==> #[trigger] all[a] != #[trigger] all[b],
        decreases names.len() - i,
    {
        let name = &names[i];
        let (_, found) = seen.locate(name.as_str());
        let ghost before = all.take(i as int);
        proof {
            assert(all[i as int] == name@);
            assert(found == seen@.dom().contains(name@));
            assert(found == before.contains(name@));
        }
        if found {
            proof {
                assert(before.contains(name@));
                let earlier = before.index_of(name@);
                assert(before[earlier] == all[earlier]);
                assert(all[earlier] == all[i as int]);
            }
            return true;
        }
        let ghost next = all.take(i + 1);
        proof {
            assert(next == before.push(name@));
            assert forall|other: Seq<char>| #[trigger]
                next.contains(other) <==> before.contains(other) || other == name@ by {
                if before.contains(other) {
                    let at = before.index_of(other);
                    assert(next[at] == other);
                }
                if next.contains(other) && other != name@ {
                    let at = next.index_of(other);
                    assert(before[at] == other);
                }
                assert(next[i as int] == name@);
            }
            assert forall|a: int, b: int| 0 <= a < b < i + 1 implies #[trigger] all[a]
                != #[trigger] all[b] by {
                if b == i {
                    assert(before[a] == all[a]);
                    assert(before.contains(all[a]));
                    assert(!before.contains(name@));
                }
            }
        }
        seen.insert(name.clone(), ());
        i += 1;
    }
    false
}

/// The names of `first` followed by those of `second`.
fn chained(first: &Vec<String>, second: &Vec<String>) -> (out: Vec<String>)
    ensures
        out.deep_view() == first.deep_view() + second.deep_view(),
{
    let mut out = clone_strings(first);
    let mut i: usize = 0;
    proof {
        assert(second.deep_view().take(0) == Seq::<Seq<char>>::empty());
        assert(first.deep_view() + Seq::<Seq<char>>::empty() == first.deep_view());
    }
    while i < second.len()
        invariant
            i <= second.len(),
            out.deep_view() == first.deep_view() + second.deep_view().take(i as int),
        decreases second.len() - i,
    {
        let ghost before = out.deep_view();
        out.push(second[i].clone());
        proof {
            assert(out.deep_view() =~= before.push(second@[i as int]@));
            assert(second.deep_view().take(i + 1) =~= second.deep_view().take(i as int).push(
                second@[i as int]@,
            ));
        }
        i += 1;
    }
    proof {
        assert(second.deep_view().take(second.len() as int) == second.deep_view());
    }
    out
}

/// Validate configuration rules beyond schema validation.
pub fn validate_project_configuration(configuration: &ProjectConfiguration) -> (out: Vec<String>)
    ensures
        out.deep_view() == configuration_errors(configuration@),
{
    let mut errors: Vec<String> = Vec::new();
    proof {
        assert(errors.deep_view() =~= Seq::<Seq<char>>::empty());
    }
    let directory = chars_of(configuration.project_directory.as_str());
    complain(&mut errors, is_blank_chars(&directory), "project_directory must not be empty");
    complain(&mut errors, configuration.hierarchy.len() == 0, "hierarchy must not be empty");
    complain(
        &mut errors,
        has_duplicate_names(&chained(&configuration.hierarchy, &configuration.types)),
        "duplicate type name",
    );
    let mut has_default = false;
    let mut w: usize = 0;
    while w < configuration.workflows.len()
        invariant
            w <= configuration.workflows.len(),
            has_default == exists|k: int|
                0 <= k < w && #[trigger] configuration@.workflow_names[k] == "default"@,
        decreases configuration.workflows.len() - w,
    {
        if same_text(configuration.workflows[w].name.as_str(), "default") {
            proof {
                assert(configuration@.workflow_names[w as int] == "default"@);
            }
            has_default = true;
        }
        w += 1;
    }
    complain(&mut errors, !has_default, "default workflow is required");
    let mut has_priority = false;
    let mut p: usize = 0;
    while p < configuration.priorities.len()
        invariant
            p <= configuration.priorities.len(),
            has_priority == exists|k: int|
                0 <= k < p && #[trigger] configuration@.priority_levels[k]
                    == configuration.default_priority,
        decreases configuration.priorities.len() - p,
    {
        if configuration.priorities[p].level == configuration.default_priority {
            proof {
                assert(configuration@.priority_levels[p as int] == configuration.default_priority);
            }
            has_priority = true;
        }
        p += 1;
    }
    complain(&mut errors, !has_priority, "default priority must be in priorities map");
    proof {
        let c = configuration@;
        assert(Seq::<Seq<char>>::empty() + complaint(
            is_blank(c.project_directory),
            "project_directory must not be empty"@,
        ) == complaint(is_blank(c.project_directory), "project_directory must not be empty"@));
    }
    errors
}

/// What a complaint about a configuration's shape is reported as: one that
/// speaks of an unknown field is shortened, every other is kept as it is.
pub open spec fn configuration_message(message: Seq<char>) -> Seq<char> {
    if contains(message, "unknown field"@) {
        "unknown configuration fields"@
    } else {
        message
    }
}

/// Turns a complaint about a configuration's shape into the message that is
/// reported.
pub fn map_configuration_error(message: &str) -> (out: String)
    ensures
        out@ == configuration_message(message@),
{
    if contains_chars(&chars_of(message), &chars_of("unknown field")) {
        owned("unknown configuration fields")
    } else {
        owned(message)
    }
}

/// What loading a configuration comes to. `parsed` is what reading the
/// merged settings gave: the configuration, or the complaint about its shape.
/// A configuration that breaks a rule is refused with all complaints, joined
/// by `; `.
pub open spec fn loaded_configuration(parsed: Result<ConfigurationView, Seq<char>>) -> Result<
    ConfigurationView,
    KanbusErrorView,
> {
    match parsed {
        Err(message) => Err(KanbusErrorView::Configuration(configuration_message(message))),
        Ok(c) => if configuration_errors(c).len() == 0 {
            Ok(c)
        } else {
            Err(KanbusErrorView::Configuration(join(configuration_errors(c), "; "@)))
        },
    }
}

/// Finishes loading a configuration: reports a complaint about its shape, or
/// checks the rules and hands the configuration on where it meets them.
pub fn load_project_configuration(parsed: Result<ProjectConfiguration, String>) -> (out: Result<
    ProjectConfiguration,
    KanbusError,
>)
    ensures
        match out {
            Ok(configuration) => parsed == Ok::<ProjectConfiguration, String>(configuration)
                && loaded_configuration(Ok(configuration@)) == Ok::<
                ConfigurationView,
                KanbusErrorView,
            >(configuration@),
            Err(error) => Err::<ConfigurationView, KanbusErrorView>(error@) == loaded_configuration(
                match parsed {
                    Ok(c) => Ok(c@),
                    Err(m) => Err(m@),
                },
            ),
        },
{
    match parsed {
        Err(message) => Err(KanbusError::Configuration(map_configuration_error(message.as_str()))),
        Ok(configuration) => {
            let errors = validate_project_configuration(&configuration);
            if errors.len() == 0 {
                Ok(configuration)
            } else {
                Err(KanbusError::Configuration(join_strings(&errors, "; ")))
            }
        },
    }
}

} // verus!
