//! Colouring rules: an ordered list of filters with colours; the first
//! rule that passes a line gives its colours.

use vstd::prelude::*;

use crate::ffile::filter_verdict;
use crate::filter_spec::{contains_seq, lower_of, FilterSpec, FilterType};

verus! {

/// A terminal colour.
#[derive(Debug, Clone, Copy, PartialEq, Eq, Structural)]
pub enum Colour {
    Black,
    Red,
    Green,
    Blue,
    Yellow,
    Magenta,
    Cyan,
    Gray,
    White,
}

/// Foreground and background colours, either of which may be left alone.
pub type Colours = (Option<Colour>, Option<Colour>);

/// Lines that pass `filter_spec` are drawn in the given colours.
#[derive(Debug, Clone)]
pub struct ColouringRule {
    pub enabled: bool,
    pub filter_spec: FilterSpec,
    pub fg_colour: Option<Colour>,
    pub bg_colour: Option<Colour>,
}

impl Default for ColouringRule {
    /// An enabled rule with an empty case-insensitive pattern and no colours.
    fn default() -> (r: ColouringRule)
        ensures
            r.enabled,
            r.filter_spec.kind() == FilterType::SimpleCaseInsensitive,
            r.filter_spec.pattern() == Seq::<char>::empty(),
            r.fg_colour is None,
            r.bg_colour is None,
    {
        proof {
            reveal_strlit("");
        }
        let filter_spec = match FilterSpec::new(FilterType::SimpleCaseInsensitive, "") {
            Ok(f) => f,
            Err(_) => vstd::pervasive::unreached(),
        };
        ColouringRule { enabled: true, filter_spec, fg_colour: None, bg_colour: None }
    }
}

/// The colours of the first rule whose verdict is true.
pub open spec fn first_colours(rules: Seq<ColouringRule>, verdicts: Seq<bool>) -> Option<Colours>
    decreases rules.len(),
{
    if rules.len() == 0 || verdicts.len() == 0 {
        None
    } else if verdicts[0] {
        Some((rules[0].fg_colour, rules[0].bg_colour))
    } else {
        first_colours(rules.drop_first(), verdicts.drop_first())
    }
}

/// Each verdict agrees with its rule's filter on `line`.
pub open spec fn verdicts_fit(rules: Seq<ColouringRule>, verdicts: Seq<bool>, line: Seq<char>) -> bool {
    &&& verdicts.len() == rules.len()
    &&& forall|i: int|
        0 <= i < rules.len() ==> filter_verdict(
            (#[trigger] rules[i]).filter_spec.kind(),
            rules[i].filter_spec.pattern(),
            line,
            verdicts[i],
        )
}

/// An ordered list of colouring rules: the first that matches a line wins.
#[derive(Debug, Clone)]
pub struct ColouringSpec {
    rules: Vec<ColouringRule>,
}

impl ColouringSpec {
    pub closed spec fn spec_rules(&self) -> Seq<ColouringRule> {
        self.rules@
    }

    pub fn new() -> (r: ColouringSpec)
        ensures
            r.spec_rules() == Seq::<ColouringRule>::empty(),
    {
        ColouringSpec { rules: Vec::new() }
    }

    /// One rule: lines holding "error", in any case, in red.
    pub fn default() -> (r: ColouringSpec)
        ensures
            r.spec_rules().len() == 1,
            r.spec_rules()[0].enabled,
            r.spec_rules()[0].filter_spec.kind() == FilterType::SimpleCaseInsensitive,
            r.spec_rules()[0].filter_spec.pattern() == seq!['e', 'r', 'r', 'o', 'r'],
            r.spec_rules()[0].fg_colour == Some(Colour::Red),
            r.spec_rules()[0].bg_colour is None,
    {
        proof {
            reveal_strlit("error");
        }
        let filter_spec = match FilterSpec::new(FilterType::SimpleCaseInsensitive, "error") {
            Ok(f) => f,
            Err(_) => vstd::pervasive::unreached(),
        };
        let mut rules = Vec::new();
        rules.push(ColouringRule { enabled: true, filter_spec, fg_colour: Some(Colour::Red), bg_colour: None });
        ColouringSpec::new().set_rules(rules)
    }

    pub fn set_rules(self, rules: Vec<ColouringRule>) -> (r: ColouringSpec)
        ensures
            r.spec_rules() == rules@,
    {
        let mut s = self;
        s.rules = rules;
        s
    }

    pub fn rules(&self) -> (r: &Vec<ColouringRule>)
        ensures
            r@ == self.spec_rules(),
    {
        &self.rules
    }

    /// Inserts `rule` at `index`, or appends it when there is no index or
    /// the index is past the end.
    pub fn add_rule(&mut self, rule: ColouringRule, index: Option<usize>)
        ensures
            match index {
                Some(i) if i <= old(self).spec_rules().len() => final(self).spec_rules()
                    == old(self).spec_rules().insert(i as int, rule),
                _ => final(self).spec_rules() == old(self).spec_rules().push(rule),
            },
    {
        match index {
            Some(i) => {
                if i <= self.rules.len() {
                    self.rules.insert(i, rule);
                } else {
                    self.rules.push(rule);
                }
            },
            None => self.rules.push(rule),
        }
    }

    /// Removes and returns the rule at `index`, if there is one.
    pub fn remove_rule(&mut self, index: usize) -> (r: Option<ColouringRule>)
        ensures
            index < old(self).spec_rules().len() ==> r == Some(old(self).spec_rules()[index as int])
                && final(self).spec_rules() == old(self).spec_rules().remove(index as int),
            index >= old(self).spec_rules().len() ==> r is None && final(self).spec_rules() == old(
                self,
            ).spec_rules(),
    {
        if index < self.rules.len() {
            Some(self.rules.remove(index))
        } else {
            None
        }
    }

    /// Swaps the rule at `index` with the one before it.
    pub fn move_rule_up(&mut self, index: usize) -> (r: bool)
        ensures
            r == (0 < index < old(self).spec_rules().len()),
            r ==> final(self).spec_rules() == old(self).spec_rules().update(
                index - 1,
                old(self).spec_rules()[index as int],
            ).update(index as int, old(self).spec_rules()[index - 1]),
            !r ==> final(self).spec_rules() == old(self).spec_rules(),
    {
        if index > 0 && index < self.rules.len() {
            let rule = self.rules.remove(index);
            self.rules.insert(index - 1, rule);
            assert(self.rules@ =~= old(self).spec_rules().update(
                index - 1,
                old(self).spec_rules()[index as int],
            ).update(index as int, old(self).spec_rules()[index - 1]));
            true
        } else {
            false
        }
    }

    /// Swaps the rule at `index` with the one after it.
    pub fn move_rule_down(&mut self, index: usize) -> (r: bool)
        ensures
            r == (index + 1 < old(self).spec_rules().len()),
            r ==> final(self).spec_rules() == old(self).spec_rules().update(
                index as int,
                old(self).spec_rules()[index + 1],
            ).update(index + 1, old(self).spec_rules()[index as int]),
            !r ==> final(self).spec_rules() == old(self).spec_rules(),
    {
        if self.rules.len() > 0 && index < self.rules.len() - 1 {
            let rule = self.rules.remove(index);
            self.rules.insert(index + 1, rule);
            assert(self.rules@ =~= old(self).spec_rules().update(
                index as int,
                old(self).spec_rules()[index + 1],
            ).update(index + 1, old(self).spec_rules()[index as int]));
            true
        } else {
            false
        }
    }

    /// Replaces the rule at `index`, if there is one.
    pub fn update_rule(&mut self, index: usize, rule: ColouringRule) -> (r: bool)
        ensures
            r == (index < old(self).spec_rules().len()),
            r ==> final(self).spec_rules() == old(self).spec_rules().update(index as int, rule),
            !r ==> final(self).spec_rules() == old(self).spec_rules(),
    {
        if index < self.rules.len() {
            self.rules.set(index, rule);
            true
        } else {
            false
        }
    }

    /// The colours of the first rule whose filter passes `line`.
    pub fn maybe_colour(&self, line: &str) -> (r: Option<Colours>)
        ensures
            exists|verdicts: Seq<bool>|
                verdicts_fit(self.spec_rules(), verdicts, line@) && r == first_colours(
                    self.spec_rules(),
                    verdicts,
                ),
    {
        let ghost rules = self.rules@;
        let ghost mut verdicts: Seq<bool> = Seq::empty();
        let mut i: usize = 0;
        while i < self.rules.len()
            invariant
                rules == self.rules@,
                i <= rules.len(),
                verdicts.len() == i,
                forall|j: int| 0 <= j < i ==> !verdicts[j],
                forall|j: int|
                    0 <= j < i ==> filter_verdict(
                        (#[trigger] rules[j]).filter_spec.kind(),
                        rules[j].filter_spec.pattern(),
                        line@,
                        verdicts[j],
                    ),
            decreases self.rules.len() - i,
        {
            let rule = &self.rules[i];
            if rule.filter_spec.matches(line) {
                let ghost all = verdicts.push(true) + Seq::new(
                    (rules.len() - i - 1) as nat,
                    |j: int|
                        spec_verdict(
                            rules[i + 1 + j].filter_spec.kind(),
                            rules[i + 1 + j].filter_spec.pattern(),
                            line@,
                        ),
                );
                proof {
                    assert forall|j: int| 0 <= j < rules.len() implies filter_verdict(
                        (#[trigger] rules[j]).filter_spec.kind(),
                        rules[j].filter_spec.pattern(),
                        line@,
                        all[j],
                    ) by {
                        if j > i {
                            assert(all[j] == spec_verdict(
                                rules[j].filter_spec.kind(),
                                rules[j].filter_spec.pattern(),
                                line@,
                            ));
                        }
                    }
                    assert(all.len() == rules.len());
                    assert(all[i as int]);
                    assert forall|j: int| 0 <= j < i implies !all[j] by {
                        assert(all[j] == verdicts[j]);
                    }
                    lemma_first_colours_at(rules, all, i as int);
                    assert(verdicts_fit(self.spec_rules(), all, line@));
                }
                return Some((rule.fg_colour, rule.bg_colour));
            }
            proof {
                verdicts = verdicts.push(false);
            }
            i = i + 1;
        }
        proof {
            lemma_first_colours_none(rules, verdicts);
            assert(verdicts_fit(self.spec_rules(), verdicts, line@));
        }
        None
    }
}

/// What a filter says of `line` where it is decided; false for a regular
/// expression.
pub open spec fn spec_verdict(kind: FilterType, pattern: Seq<char>, line: Seq<char>) -> bool {
    match kind {
        FilterType::SimpleCaseSensitive => contains_seq(line, pattern),
        FilterType::SimpleCaseInsensitive => contains_seq(lower_of(line), lower_of(pattern)),
        FilterType::Regex => false,
    }
}

proof fn lemma_first_colours_at(rules: Seq<ColouringRule>, verdicts: Seq<bool>, i: int)
    requires
        0 <= i < rules.len(),
        verdicts.len() == rules.len(),
        verdicts[i],
        forall|j: int| 0 <= j < i ==> !verdicts[j],
    ensures
        first_colours(rules, verdicts) == Some((rules[i].fg_colour, rules[i].bg_colour)),
    decreases i,
{
    if i > 0 {
        lemma_first_colours_at(rules.drop_first(), verdicts.drop_first(), i - 1);
    }
}

proof fn lemma_first_colours_none(rules: Seq<ColouringRule>, verdicts: Seq<bool>)
    requires
        verdicts.len() == rules.len(),
        forall|j: int| 0 <= j < verdicts.len() ==> !verdicts[j],
    ensures
        first_colours(rules, verdicts) is None,
    decreases rules.len(),
{
    if rules.len() > 0 {
        lemma_first_colours_none(rules.drop_first(), verdicts.drop_first());
    }
}

} // verus!
