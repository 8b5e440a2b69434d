//! Settings out of the environment, taken as a list of names and values.
use vstd::prelude::*;

use crate::text::dec;
use crate::text::dec_parses_back;
use crate::text::parse_bounded;
use crate::text::parse_u32;
use crate::text::parse_u64;
use crate::text::same;

verus! {

broadcast use vstd::string::group_string_axioms;

/// The value of a variable, where it is set.
pub open spec fn setting(vars: Seq<(String, String)>, name: Seq<char>) -> Option<Seq<char>>
    decreases vars.len(),
{
    if vars.len() == 0 {
        None
    } else if vars[0].0@ == name {
        Some(vars[0].1@)
    } else {
        setting(vars.skip(1), name)
    }
}

/// The value of a variable, where it is set.
pub fn find_setting<'a>(vars: &'a [(String, String)], name: &str) -> (r: Option<&'a str>)
    ensures
        match r {
            Some(value) => setting(vars@, name@) == Some(value@),
            None => setting(vars@, name@) is None,
        },
{
    let mut i: usize = 0;
    assert(vars@.skip(0) =~= vars@);
    while i < vars.len()
        invariant
            i <= vars.len(),
            setting(vars@, name@) == setting(vars@.skip(i as int), name@),
        decreases vars.len() - i,
    {
        assert(vars@.skip(i as int).skip(1) =~= vars@.skip(i + 1));
        assert(vars@.skip(i as int)[0] == vars@[i as int]);
        if same(vars[i].0.as_str(), name) {
            return Some(vars[i].1.as_str());
        }
        i = i + 1;
    }
    None
}

/// A positive number out of a setting, or a default where it is missing or no such number.
pub open spec fn positive_or(value: Option<Seq<char>>, max: nat, default: nat) -> nat {
    match value {
        None => default,
        Some(text) => match parse_bounded(text, max) {
            Some(n) => if n > 0 {
                n
            } else {
                default
            },
            None => default,
        },
    }
}

/// What an optional text is.
pub open spec fn opt_str(value: Option<&str>) -> Option<Seq<char>> {
    match value {
        Some(text) => Some(text@),
        None => None,
    }
}

/// A positive 32-bit number out of a setting, or a default.
pub fn positive_u32(value: Option<&str>, default: u32) -> (r: u32)
    ensures
        r == positive_or(opt_str(value), u32::MAX as nat, default as nat),
{
    match value {
        None => default,
        Some(text) => match parse_u32(text) {
            Some(n) => if n > 0 {
                n
            } else {
                default
            },
            None => default,
        },
    }
}

/// A positive size out of a setting, or a default.
pub fn positive_usize(value: Option<&str>, default: usize) -> (r: usize)
    ensures
        r == positive_or(opt_str(value), usize::MAX as nat, default as nat),
{
    match value {
        None => default,
        Some(text) => match parse_u64(text) {
            Some(n) => if n > 0 && n <= usize::MAX as u64 {
                n as usize
            } else {
                default
            },
            None => default,
        },
    }
}

/// A variable is found by its name; where it is given twice the first value counts.
pub proof fn settings_are_found_by_name(vars: Seq<(String, String)>, i: int)
    requires
        0 <= i < vars.len(),
        forall|k: int| 0 <= k < i ==> (#[trigger] vars[k]).0@ != vars[i].0@,
    ensures
        setting(vars, vars[i].0@) == Some(vars[i].1@),
    decreases i,
{
    if i > 0 {
        assert(vars[0].0@ != vars[i].0@);
        let rest = vars.skip(1);
        assert(rest[i - 1] == vars[i]);
        assert forall|k: int| 0 <= k < i - 1 implies (#[trigger] rest[k]).0@ != rest[i - 1].0@ by {
            assert(rest[k] == vars[k + 1]);
        }
        settings_are_found_by_name(rest, i - 1);
    }
}

/// A variable that is not given has no value.
pub proof fn missing_settings_have_no_value(vars: Seq<(String, String)>, name: Seq<char>)
    requires
        forall|k: int| 0 <= k < vars.len() ==> (#[trigger] vars[k]).0@ != name,
    ensures
        setting(vars, name) is None,
    decreases vars.len(),
{
    if vars.len() > 0 {
        assert(vars[0].0@ != name);
        let rest = vars.skip(1);
        assert forall|k: int| 0 <= k < rest.len() implies (#[trigger] rest[k]).0@ != name by {
            assert(rest[k] == vars[k + 1]);
        }
        missing_settings_have_no_value(rest, name);
    }
}

/// A number that is positive and within its bound is taken; zero, what is too large, what is no
/// number and what is missing give way to the default.
pub proof fn numbers_give_way_to_defaults(n: nat, max: nat, default: nat, text: Seq<char>)
    ensures
        0 < n <= max ==> positive_or(Some(dec(n)), max, default) == n,
        n > max ==> positive_or(Some(dec(n)), max, default) == default,
        positive_or(Some(dec(0)), max, default) == default,
        parse_bounded(text, max) is None ==> positive_or(Some(text), max, default) == default,
        positive_or(None, max, default) == default,
{
    dec_parses_back(n);
    dec_parses_back(0);
}

} // verus!
