//! Rule editing and stock-rule installation decisions of the `rule` command.

use vstd::prelude::*;

use crate::keyed::{insert_if_absent, lookup, upsert};
use crate::text::{chars_of, first_index_of, find_char_in, lemma_first_index_of, string_from_range};

verus! {

/// Output format of `rule list` and `rule execute`.
#[derive(Debug, Clone, Copy, PartialEq, Eq, Structural)]
pub enum RuleOutputFormat {
    Plain,
    Json,
}

/// Error for a malformed `--map`.
pub const MAP_FORMAT_ERROR: &'static str = "map must be GROUP:VAR";

/// Spec: `GROUP:VAR` split at its first colon, when both parts are non-empty.
pub open spec fn capture_map_parts(spec: Seq<char>) -> Option<(Seq<char>, Seq<char>)> {
    match first_index_of(spec, ':') {
        Some(k) => if k > 0 && k + 1 < spec.len() {
            Some((spec.take(k), spec.skip(k + 1)))
        } else {
            None
        },
        None => None,
    }
}

/// Parse a `GROUP:VAR` capture mapping (e.g. `asset:ASSET`); the split is at
/// the first colon.
pub fn parse_capture_map(spec: &str) -> (r: Result<(String, String), String>)
    ensures
        match capture_map_parts(spec@) {
            Some((g, v)) => r matches Ok(p) && p.0@ == g && p.1@ == v,
            None => r matches Err(m) && m@ == MAP_FORMAT_ERROR@,
        },
{
    let cs = chars_of(spec);
    let n = cs.len();
    proof {
        assert(cs@.subrange(0, n as int) =~= cs@);
        lemma_first_index_of(cs@, ':');
    }
    match find_char_in(&cs, ':', 0, n) {
        Some(k) => {
            if k == 0 || k + 1 >= n {
                return Err(MAP_FORMAT_ERROR.to_owned());
            }
            let group = string_from_range(&cs, 0, k);
            let var = string_from_range(&cs, k + 1, n);
            proof {
                assert(cs@.subrange(0, k as int) =~= spec@.take(k as int));
                assert(cs@.subrange(k + 1, n as int) =~= spec@.skip(k + 1));
            }
            Ok((group, var))
        },
        None => Err(MAP_FORMAT_ERROR.to_owned()),
    }
}

/// Spec: the error of `rule create`, if any; `reserved` and `exists` tell
/// whether the name is reserved and whether a rule already has it.
pub open spec fn create_error(name: Seq<char>, reserved: bool, exists: bool) -> Option<Seq<char>> {
    if reserved {
        Some("reserved rule name: "@ + name)
    } else if exists {
        Some("rule already exists: "@ + name)
    } else {
        None
    }
}

/// Check a new rule's name: reserved names and names in use are refused.
pub fn rule_create_check(name: &str, reserved: bool, exists: bool) -> (r: Result<(), String>)
    ensures
        match create_error(name@, reserved, exists) {
            Some(e) => r matches Err(m) && m@ == e,
            None => r is Ok,
        },
{
    if reserved {
        let mut m = "reserved rule name: ".to_owned();
        m.append(name);
        return Err(m);
    }
    if exists {
        let mut m = "rule already exists: ".to_owned();
        m.append(name);
        return Err(m);
    }
    Ok(())
}

/// The editable parts of a routing rule.
#[derive(Debug, Clone)]
pub struct Rule {
    pub name: String,
    pub regex: Option<String>,
    /// Regex capture group to variable name; a group's entry is its first one.
    pub captures: Vec<(String, String)>,
    pub exec_path: Option<String>,
    pub wifi_connect: bool,
}

impl Rule {
    /// A rule with no pattern, captures or action.
    pub fn new(name: &str) -> (r: Rule)
        ensures
            r.name@ == name@,
            r.regex is None,
            r.captures@.len() == 0,
            r.exec_path is None,
            !r.wifi_connect,
    {
        Rule {
            name: name.to_owned(),
            regex: None,
            captures: Vec::new(),
            exec_path: None,
            wifi_connect: false,
        }
    }
}

/// Error when `rule config` gets nothing to set.
pub const CONFIG_NEEDS_INPUT: &'static str = "config requires --regex and/or --map";

/// Error when `rule set-action` gets nothing to set.
pub const SET_ACTION_NEEDS_INPUT: &'static str = "set-action requires --exec and/or --wifi-connect";

/// Spec: every map of `maps` is well formed.
pub open spec fn maps_valid(maps: Seq<String>) -> bool {
    forall|i: int| 0 <= i < maps.len() ==> (#[trigger] capture_map_parts(maps[i]@)) is Some
}

/// Spec: the capture of `group` after applying `maps` (later maps win) to
/// captures whose lookup is `before`.
pub open spec fn capture_after_maps(
    before: Option<String>,
    maps: Seq<String>,
    group: Seq<char>,
) -> Option<Seq<char>>
    decreases maps.len(),
{
    if maps.len() == 0 {
        match before {
            Some(v) => Some(v@),
            None => None,
        }
    } else {
        match capture_map_parts(maps.last()@) {
            Some((g, v)) => if g == group {
                Some(v)
            } else {
                capture_after_maps(before, maps.drop_last(), group)
            },
            None => capture_after_maps(before, maps.drop_last(), group),
        }
    }
}

/// Apply `rule config`: set the pattern and add capture mappings. Refused
/// when there is nothing to set or a mapping is malformed.
pub fn configure_rule(rule: Rule, regex: Option<&str>, maps: &[String]) -> (r: Result<Rule, String>)
    ensures
        regex is None && maps@.len() == 0 ==> (r matches Err(m) && m@ == CONFIG_NEEDS_INPUT@),
        !(regex is None && maps@.len() == 0) && !maps_valid(maps@) ==> (r matches Err(m) && m@
            == MAP_FORMAT_ERROR@),
        !(regex is None && maps@.len() == 0) && maps_valid(maps@) ==> (r matches Ok(new) && {
            &&& new.name == rule.name
            &&& new.exec_path == rule.exec_path
            &&& new.wifi_connect == rule.wifi_connect
            &&& match regex {
                Some(p) => new.regex matches Some(q) && q@ == p@,
                None => new.regex == rule.regex,
            }
            &&& forall|g: Seq<char>|
                match #[trigger] lookup(new.captures@, g) {
                    Some(v) => capture_after_maps(lookup(rule.captures@, g), maps@, g) == Some(v@),
                    None => capture_after_maps(lookup(rule.captures@, g), maps@, g) is None,
                }
        }),
{
    if regex.is_none() && maps.len() == 0 {
        return Err(CONFIG_NEEDS_INPUT.to_owned());
    }
    let mut rule = rule;
    let ghost orig = rule;
    match regex {
        Some(p) => {
            rule.regex = Some(p.to_owned());
        },
        None => {},
    }
    let mut i: usize = 0;
    while i < maps.len()
        invariant
            i <= maps@.len(),
            rule.name == orig.name,
            rule.exec_path == orig.exec_path,
            rule.wifi_connect == orig.wifi_connect,
            match regex {
                Some(p) => rule.regex matches Some(q) && q@ == p@,
                None => rule.regex == orig.regex,
            },
            maps_valid(maps@.take(i as int)),
            forall|g: Seq<char>|
                match #[trigger] lookup(rule.captures@, g) {
                    Some(v) => capture_after_maps(
                        lookup(orig.captures@, g),
                        maps@.take(i as int),
                        g,
                    ) == Some(v@),
                    None => capture_after_maps(
                        lookup(orig.captures@, g),
                        maps@.take(i as int),
                        g,
                    ) is None,
                },
        decreases maps.len() - i,
    {
        let parsed = parse_capture_map(maps[i].as_str());
        proof {
            assert(maps@.take(i + 1).drop_last() =~= maps@.take(i as int));
            assert(maps@.take(i + 1).last() == maps@[i as int]);
        }
        match parsed {
            Ok((group, var)) => {
                let ghost gv = group@;
                let ghost vv = var@;
                let ghost before = rule.captures@;
                upsert(&mut rule.captures, group, var);
                proof {
                    assert forall|j: int| 0 <= j < i + 1 implies (#[trigger] capture_map_parts(
                        maps@.take(i + 1)[j]@,
                    )) is Some by {
                        if j < i {
                            assert(maps@.take(i + 1)[j] == maps@.take(i as int)[j]);
                        }
                    }
                    assert forall|g: Seq<char>|
                        match #[trigger] lookup(rule.captures@, g) {
                            Some(v) => capture_after_maps(
                                lookup(orig.captures@, g),
                                maps@.take(i + 1),
                                g,
                            ) == Some(v@),
                            None => capture_after_maps(
                                lookup(orig.captures@, g),
                                maps@.take(i + 1),
                                g,
                            ) is None,
                        } by {
                        assert(lookup(before, g) == lookup(before, g));
                    }
                }
            },
            Err(e) => {
                proof {
                    assert(!maps_valid(maps@)) by {
                        assert(capture_map_parts(maps@[i as int]@) is None);
                    }
                }
                return Err(e);
            },
        }
        i += 1;
    }
    proof {
        assert(maps@.take(maps@.len() as int) =~= maps@);
    }
    Ok(rule)
}

/// Apply `rule set-action`: set the exec path and/or turn on WiFi connect.
/// Refused when there is nothing to set.
pub fn set_rule_action(rule: Rule, exec: Option<&str>, wifi_connect: bool) -> (r: Result<
    Rule,
    String,
>)
    ensures
        exec is None && !wifi_connect ==> (r matches Err(m) && m@ == SET_ACTION_NEEDS_INPUT@),
        !(exec is None && !wifi_connect) ==> (r matches Ok(new) && {
            &&& new.name == rule.name
            &&& new.regex == rule.regex
            &&& new.captures == rule.captures
            &&& match exec {
                Some(p) => new.exec_path matches Some(q) && q@ == p@,
                None => new.exec_path == rule.exec_path,
            }
            &&& new.wifi_connect == (rule.wifi_connect || wifi_connect)
        }),
{
    if exec.is_none() && !wifi_connect {
        return Err(SET_ACTION_NEEDS_INPUT.to_owned());
    }
    let mut rule = rule;
    match exec {
        Some(p) => {
            rule.exec_path = Some(p.to_owned());
        },
        None => {},
    }
    if wifi_connect {
        rule.wifi_connect = true;
    }
    Ok(rule)
}

/// Spec: the rule named `name` after installing the stock rules: `force`
/// keeps only the stock rules, `merge` keeps existing rules over stock ones,
/// and otherwise stock rules replace existing ones of the same name.
pub open spec fn installed_rule<R>(
    existing: Seq<(String, R)>,
    defaults: Seq<(String, R)>,
    merge: bool,
    force: bool,
    name: Seq<char>,
) -> Option<R> {
    if force {
        lookup(defaults, name)
    } else if merge {
        if lookup(existing, name) is Some {
            lookup(existing, name)
        } else {
            lookup(defaults, name)
        }
    } else {
        if lookup(defaults, name) is Some {
            lookup(defaults, name)
        } else {
            lookup(existing, name)
        }
    }
}

/// Spec: no two entries of `s` have the same name.
pub open spec fn distinct_keys<R>(s: Seq<(String, R)>) -> bool {
    forall|i: int, j: int| 0 <= i < j < s.len() ==> #[trigger] s[i].0@ != #[trigger] s[j].0@
}

/// The first `n + 1` entries look up as the first `n` with entry `n` appended.
proof fn lemma_lookup_take<R>(s: Seq<(String, R)>, n: int, name: Seq<char>)
    requires
        0 <= n < s.len(),
    ensures
        lookup(s.take(n + 1), name) == if lookup(s.take(n), name) is Some {
            lookup(s.take(n), name)
        } else if s[n].0@ == name {
            Some(s[n].1)
        } else {
            None::<R>
        },
{
    assert(s.take(n + 1) =~= s.take(n).push(s[n]));
    crate::keyed::lemma_lookup_push(s.take(n), s[n], name);
}

/// The rule set after installing the stock rules `defaults` into the rules
/// `existing` (see [`installed_rule`]).
pub fn merge_default_rules<R>(
    existing: Vec<(String, R)>,
    defaults: Vec<(String, R)>,
    merge: bool,
    force: bool,
) -> (r: Vec<(String, R)>)
    requires
        distinct_keys(defaults@),
    ensures
        forall|name: Seq<char>|
            #[trigger] lookup(r@, name) == installed_rule(existing@, defaults@, merge, force, name),
{
    if force {
        return defaults;
    }
    let ghost defaults0 = defaults@;
    let mut result = existing;
    let ghost existing0 = result@;
    let mut rest = defaults;
    let n = rest.len();
    let mut i: usize = 0;
    while rest.len() > 0
        invariant
            n == defaults0.len(),
            i <= defaults0.len(),
            distinct_keys(defaults0),
            rest@ == defaults0.skip(i as int),
            forall|name: Seq<char>|
                #[trigger] lookup(result@, name) == if merge {
                    if lookup(existing0, name) is Some {
                        lookup(existing0, name)
                    } else {
                        lookup(defaults0.take(i as int), name)
                    }
                } else {
                    if lookup(defaults0.take(i as int), name) is Some {
                        lookup(defaults0.take(i as int), name)
                    } else {
                        lookup(existing0, name)
                    }
                },
        decreases rest.len(),
    {
        let (name, rule) = rest.remove(0);
        proof {
            assert(defaults0[i as int] == (name, rule));
        }
        let ghost before = result@;
        let ghost entry = (name, rule);
        if merge {
            insert_if_absent(&mut result, name, rule);
        } else {
            upsert(&mut result, name, rule);
        }
        proof {
            assert forall|k: Seq<char>| #[trigger] lookup(result@, k) == if merge {
                if lookup(existing0, k) is Some {
                    lookup(existing0, k)
                } else {
                    lookup(defaults0.take(i + 1), k)
                }
            } else {
                if lookup(defaults0.take(i + 1), k) is Some {
                    lookup(defaults0.take(i + 1), k)
                } else {
                    lookup(existing0, k)
                }
            } by {
                lemma_lookup_take(defaults0, i as int, k);
                assert(defaults0[i as int] == entry);
                if k == entry.0@ {
                    crate::keyed::lemma_lookup_some(defaults0.take(i as int), k);
                    if crate::keyed::has_key(defaults0.take(i as int), k) {
                        let j = choose|j: int|
                            0 <= j < i && #[trigger] defaults0.take(i as int)[j].0@ == k;
                        assert(defaults0[j].0@ == defaults0[i as int].0@);
                    }
                }
                assert(lookup(before, k) == if merge {
                    if lookup(existing0, k) is Some {
                        lookup(existing0, k)
                    } else {
                        lookup(defaults0.take(i as int), k)
                    }
                } else {
                    if lookup(defaults0.take(i as int), k) is Some {
                        lookup(defaults0.take(i as int), k)
                    } else {
                        lookup(existing0, k)
                    }
                });
            }
            assert(rest@ =~= defaults0.skip(i + 1));
        }
        i += 1;
    }
    proof {
        assert(defaults0.take(i as int) =~= defaults0);
    }
    result
}

/// With `merge`, every existing rule survives unchanged.
pub proof fn law_merge_keeps_existing<R>(
    existing: Seq<(String, R)>,
    defaults: Seq<(String, R)>,
    name: Seq<char>,
)
    requires
        lookup(existing, name) is Some,
    ensures
        installed_rule(existing, defaults, true, false, name) == lookup(existing, name),
{
}

/// Without `merge`, every stock rule is installed, replacing a rule of the
/// same name.
pub proof fn law_install_prefers_defaults<R>(
    existing: Seq<(String, R)>,
    defaults: Seq<(String, R)>,
    name: Seq<char>,
)
    requires
        lookup(defaults, name) is Some,
    ensures
        installed_rule(existing, defaults, false, false, name) == lookup(defaults, name),
{
}

/// With `force`, the store holds exactly the stock rules.
pub proof fn law_force_replaces_store<R>(
    existing: Seq<(String, R)>,
    defaults: Seq<(String, R)>,
    merge: bool,
    name: Seq<char>,
)
    ensures
        installed_rule(existing, defaults, merge, true, name) == lookup(defaults, name),
{
}

/// Every mode keeps each stock rule's name in the store.
pub proof fn law_install_keeps_stock_names<R>(
    existing: Seq<(String, R)>,
    defaults: Seq<(String, R)>,
    merge: bool,
    force: bool,
    name: Seq<char>,
)
    requires
        lookup(defaults, name) is Some,
    ensures
        installed_rule(existing, defaults, merge, force, name) is Some,
{
}

} // verus!
