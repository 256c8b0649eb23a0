use vstd::prelude::*;
use crate::model::{LibraryEntry, LibraryRule};
use crate::platform::{Platform, mojang_os_name, spec_mojang_os_name};

verus! {

/// The action a rule names; a rule without a string `action` counts as `disallow`.
pub open spec fn rule_action(rule: LibraryRule) -> Seq<char> {
    match rule.action {
        Some(a) => a@,
        None => "disallow"@,
    }
}

/// What a rule says about the operating system named `os`: `Some(true)` if it
/// allows it, `Some(false)` if it disallows it, `None` if it does not apply
/// (it targets another OS, or its action is neither `allow` nor `disallow`).
pub open spec fn rule_effect(rule: LibraryRule, os: Seq<char>) -> Option<bool> {
    let applies = match rule.os_name {
        None => true,
        Some(target) => target@ == os,
    };
    if rule_action(rule) == "allow"@ {
        if applies { Some(true) } else { None }
    } else if rule_action(rule) == "disallow"@ {
        if applies { Some(false) } else { None }
    } else {
        None
    }
}

/// The verdict of a list of rules for `os`: the last rule that applies decides,
/// and where none applies the library is refused.
pub open spec fn rules_verdict(rules: Seq<LibraryRule>, os: Seq<char>) -> bool
    decreases rules.len(),
{
    if rules.len() == 0 {
        false
    } else {
        match rule_effect(rules.last(), os) {
            Some(verdict) => verdict,
            None => rules_verdict(rules.drop_last(), os),
        }
    }
}

/// Whether a library belongs on `platform`: always without rules, else by its rules.
pub open spec fn spec_library_is_allowed(lib: LibraryEntry, platform: Platform) -> bool {
    match lib.rules {
        None => true,
        Some(rules) => rules_verdict(rules@, spec_mojang_os_name(platform)),
    }
}

/// Evaluates a library's `allow`/`disallow` rules for `platform`.
pub fn library_is_allowed(lib: &LibraryEntry, platform: Platform) -> (allowed: bool)
    ensures
        allowed == spec_library_is_allowed(*lib, platform),
{
    let rules = match &lib.rules {
        Some(r) => r,
        None => return true,
    };
    let os = String::from_str(mojang_os_name(platform));
    let allow = String::from_str("allow");
    let disallow = String::from_str("disallow");
    let mut allowed = false;
    let n = rules.len();
    for i in 0..n
        invariant
            n == rules@.len(),
            os@ == spec_mojang_os_name(platform),
            allow@ == "allow"@,
            disallow@ == "disallow"@,
            allowed == rules_verdict(rules@.take(i as int), os@),
    {
        let rule = &rules[i];
        let action = match &rule.action {
            Some(a) => a.clone(),
            None => String::from_str("disallow"),
        };
        let applies = match &rule.os_name {
            None => true,
            Some(target) => *target == os,
        };
        assert(rules@.take((i + 1) as int).drop_last() =~= rules@.take(i as int));
        assert(rules@.take((i + 1) as int).last() == rules@[i as int]);
        if action == allow {
            if applies {
                allowed = true;
            }
        } else if action == disallow {
            if applies {
                allowed = false;
            }
        }
    }
    assert(rules@.take(n as int) =~= rules@);
    allowed
}

/// A library without rules is used on every platform.
pub proof fn law_no_rules_means_allowed(lib: LibraryEntry, platform: Platform)
    requires
        lib.rules is None,
    ensures
        spec_library_is_allowed(lib, platform),
{
}

/// The verdict is that of the last applicable rule: if the rule at index `k` applies
/// and none after it does, the verdict is what that rule says.
pub proof fn law_verdict_is_last_applicable(rules: Seq<LibraryRule>, os: Seq<char>, k: int)
    requires
        0 <= k < rules.len(),
        rule_effect(rules[k], os) is Some,
        forall|j: int| k < j < rules.len() ==> rule_effect(#[trigger] rules[j], os) is None,
    ensures
        rules_verdict(rules, os) == rule_effect(rules[k], os).unwrap(),
    decreases rules.len(),
{
    if k == rules.len() - 1 {
    } else {
        assert(rule_effect(rules[rules.len() - 1], os) is None);
        let shorter = rules.drop_last();
        assert forall|j: int| k < j < shorter.len() implies rule_effect(#[trigger] shorter[j], os) is None by {
            assert(shorter[j] == rules[j]);
        }
        law_verdict_is_last_applicable(shorter, os, k);
    }
}

/// Where no rule applies to `os`, the library is refused.
pub proof fn law_no_applicable_rule_refuses(rules: Seq<LibraryRule>, os: Seq<char>)
    requires
        forall|j: int| 0 <= j < rules.len() ==> rule_effect(#[trigger] rules[j], os) is None,
    ensures
        !rules_verdict(rules, os),
    decreases rules.len(),
{
    if rules.len() > 0 {
        let shorter = rules.drop_last();
        assert(rule_effect(rules[rules.len() - 1], os) is None);
        assert forall|j: int| 0 <= j < shorter.len() implies rule_effect(#[trigger] shorter[j], os) is None by {
            assert(shorter[j] == rules[j]);
        }
        law_no_applicable_rule_refuses(shorter, os);
    }
}

} // verus!
