//! Conversion rules: how a message, and the result that comes back for it,
//! are rewritten on the way to a destination.

use vstd::prelude::*;
use crate::connection::clone_opt_string;
use crate::error::{ConversionError, RuleError};
use crate::text::opt_text;

verus! {

/// How a conversion goes about a message.
#[derive(Clone, Copy, Debug, PartialEq, Eq, Structural)]
pub enum MsgConversionType {
    /// Property by property, one rule for each.
    PerProperty,
}

/// Where a rule takes the value of a property from.
#[derive(Clone, Copy, Debug, PartialEq, Eq, Structural)]
pub enum MsgConversionMode {
    /// From the rule itself, which then holds the value.
    FixedValue,
    /// From a property of the message as it was sent, which the rule then
    /// names.
    FromOriginal,
}

/// The rule for one property of the converted message.
#[derive(Debug, PartialEq, Eq)]
pub struct MsgConversionRule {
    /// The property that the rule sets.
    pub path: String,
    pub conversion_mode: MsgConversionMode,
    /// The property of the message as it was sent that the value is taken
    /// from.
    pub original_path: Option<String>,
    /// The fixed value, as serialized JSON.
    pub value: Option<String>,
}

/// The mathematical view of [`MsgConversionRule`].
pub struct RuleView {
    pub path: Seq<char>,
    pub conversion_mode: MsgConversionMode,
    pub original_path: Option<Seq<char>>,
    pub value: Option<Seq<char>>,
}

impl View for MsgConversionRule {
    type V = RuleView;

    open spec fn view(&self) -> RuleView {
        RuleView {
            path: self.path@,
            conversion_mode: self.conversion_mode,
            original_path: opt_text(self.original_path),
            value: opt_text(self.value),
        }
    }
}

/// The views of a sequence of rules.
pub open spec fn rule_views(v: Seq<MsgConversionRule>) -> Seq<RuleView> {
    Seq::new(v.len(), |i: int| v[i]@)
}

impl RuleView {
    /// The verdict on a rule: it must hold what its mode takes the value
    /// from, the value itself or the path in the message as it was sent.
    pub open spec fn checked(self) -> Result<(), RuleError> {
        match self.conversion_mode {
            MsgConversionMode::FixedValue => if self.value is Some {
                Ok(())
            } else {
                Err(RuleError::MissingValue)
            },
            MsgConversionMode::FromOriginal => if self.original_path is Some {
                Ok(())
            } else {
                Err(RuleError::MissingOriginalPath)
            },
        }
    }
}

/// The first rule, from index `from` on, that does not pass, with what is
/// wrong with it.
pub open spec fn first_bad_rule(rules: Seq<RuleView>, from: nat) -> Option<(usize, RuleError)>
    decreases rules.len() - from,
{
    if from >= rules.len() {
        None
    } else {
        match rules[from as int].checked() {
            Err(error) => Some((from as usize, error)),
            Ok(_) => first_bad_rule(rules, from + 1),
        }
    }
}

impl Clone for MsgConversionRule {
    fn clone(&self) -> (r: Self)
        ensures
            r@ == self@,
    {
        MsgConversionRule {
            path: self.path.clone(),
            conversion_mode: self.conversion_mode,
            original_path: clone_opt_string(&self.original_path),
            value: clone_opt_string(&self.value),
        }
    }
}

impl MsgConversionRule {
    /// Checks that the rule holds what its mode takes the value from.
    pub fn validate(&self) -> (r: Result<(), RuleError>)
        ensures
            r == self@.checked(),
    {
        match self.conversion_mode {
            MsgConversionMode::FixedValue => {
                if self.value.is_some() {
                    Ok(())
                } else {
                    Err(RuleError::MissingValue)
                }
            },
            MsgConversionMode::FromOriginal => {
                if self.original_path.is_some() {
                    Ok(())
                } else {
                    Err(RuleError::MissingOriginalPath)
                }
            },
        }
    }
}

/// The conversion of one message: its rules, and whether the properties of
/// the message as it was sent that no rule sets are kept.
#[derive(Debug, PartialEq, Eq)]
pub struct MsgConversion {
    pub conversion_type: MsgConversionType,
    pub rules: Vec<MsgConversionRule>,
    pub keep_original: Option<bool>,
}

/// The mathematical view of [`MsgConversion`].
pub struct ConversionView {
    pub conversion_type: MsgConversionType,
    pub rules: Seq<RuleView>,
    pub keep_original: Option<bool>,
}

impl View for MsgConversion {
    type V = ConversionView;

    open spec fn view(&self) -> ConversionView {
        ConversionView {
            conversion_type: self.conversion_type,
            rules: rule_views(self.rules@),
            keep_original: self.keep_original,
        }
    }
}

/// The view of an optional conversion.
pub open spec fn opt_conversion_view(o: Option<MsgConversion>) -> Option<ConversionView> {
    match o {
        Some(c) => Some(c@),
        None => None,
    }
}

/// A copy of an optional conversion.
pub fn clone_opt_conversion(o: &Option<MsgConversion>) -> (r: Option<MsgConversion>)
    ensures
        opt_conversion_view(r) == opt_conversion_view(*o),
{
    match o {
        Some(c) => {
            let mut rules: Vec<MsgConversionRule> = Vec::new();
            let mut i: usize = 0;
            while i < c.rules.len()
                invariant
                    i <= c.rules.len(),
                    rules@.len() == i,
                    forall|j: int| 0 <= j < i ==> rules@[j]@ == c.rules@[j]@,
                decreases c.rules.len() - i,
            {
                rules.push(c.rules[i].clone());
                i += 1;
            }
            assert(rule_views(rules@) =~= rule_views(c.rules@));
            Some(
                MsgConversion {
                    conversion_type: c.conversion_type,
                    rules,
                    keep_original: c.keep_original,
                },
            )
        },
        None => None,
    }
}

impl MsgConversion {
    /// Finds the first rule that does not pass.
    pub fn first_invalid_rule(&self) -> (r: Option<(usize, RuleError)>)
        ensures
            r == first_bad_rule(self@.rules, 0),
    {
        let ghost rules = rule_views(self.rules@);
        let mut i: usize = 0;
        while i < self.rules.len()
            invariant
                i <= self.rules.len(),
                rules == rule_views(self.rules@),
                first_bad_rule(rules, 0) == first_bad_rule(rules, i as nat),
            decreases self.rules.len() - i,
        {
            assert(rules[i as int] == self.rules@[i as int]@);
            match self.rules[i].validate() {
                Err(error) => { return Some((i, error)); },
                Ok(_) => {},
            }
            i += 1;
        }
        None
    }
}

/// The conversion of a message and of the result that comes back for it.
#[derive(Debug, PartialEq, Eq)]
pub struct MsgAndResultConversion {
    pub msg: Option<MsgConversion>,
    pub result: Option<MsgConversion>,
}

/// The mathematical view of [`MsgAndResultConversion`].
pub struct MsgAndResultConversionView {
    pub msg: Option<ConversionView>,
    pub result: Option<ConversionView>,
}

impl View for MsgAndResultConversion {
    type V = MsgAndResultConversionView;

    open spec fn view(&self) -> MsgAndResultConversionView {
        MsgAndResultConversionView {
            msg: opt_conversion_view(self.msg),
            result: opt_conversion_view(self.result),
        }
    }
}

/// The view of an optional conversion of message and result.
pub open spec fn opt_rule_view(o: Option<MsgAndResultConversion>) -> Option<
    MsgAndResultConversionView,
> {
    match o {
        Some(c) => Some(c@),
        None => None,
    }
}

/// The first bad rule of an optional conversion; an absent one has none.
pub open spec fn first_bad_of(o: Option<ConversionView>) -> Option<(usize, RuleError)> {
    match o {
        Some(c) => first_bad_rule(c.rules, 0),
        None => None,
    }
}

impl MsgAndResultConversionView {
    /// The verdict on the conversion: the rules for the message are checked
    /// first, then those for the result; the first rule that does not pass
    /// is reported with its index.
    pub open spec fn checked(self) -> Result<(), ConversionError> {
        match first_bad_of(self.msg) {
            Some((rule, error)) => Err(ConversionError::Msg { rule, error }),
            None => match first_bad_of(self.result) {
                Some((rule, error)) => Err(ConversionError::Result { rule, error }),
                None => Ok(()),
            },
        }
    }
}

/// The verdict on an optional conversion; an absent one is in order.
pub open spec fn opt_rule_checked(o: Option<MsgAndResultConversionView>) -> Result<
    (),
    ConversionError,
> {
    match o {
        Some(c) => c.checked(),
        None => Ok(()),
    }
}

impl Clone for MsgAndResultConversion {
    fn clone(&self) -> (r: Self)
        ensures
            r@ == self@,
    {
        MsgAndResultConversion {
            msg: clone_opt_conversion(&self.msg),
            result: clone_opt_conversion(&self.result),
        }
    }
}

/// A copy of an optional conversion of message and result.
pub fn clone_opt_rule(o: &Option<MsgAndResultConversion>) -> (r: Option<MsgAndResultConversion>)
    ensures
        opt_rule_view(r) == opt_rule_view(*o),
{
    match o {
        Some(c) => Some(c.clone()),
        None => None,
    }
}

impl MsgAndResultConversion {
    /// Validates the conversion: every rule for the message, then every rule
    /// for the result, must hold what its mode takes the value from.
    pub fn validate(&self) -> (r: Result<(), ConversionError>)
        ensures
            r == self@.checked(),
    {
        match &self.msg {
            Some(c) => match c.first_invalid_rule() {
                Some((rule, error)) => { return Err(ConversionError::Msg { rule, error }); },
                None => {},
            },
            None => {},
        }
        match &self.result {
            Some(c) => match c.first_invalid_rule() {
                Some((rule, error)) => Err(ConversionError::Result { rule, error }),
                None => Ok(()),
            },
            None => Ok(()),
        }
    }
}

/// No rule is reported exactly when every rule passes.
pub proof fn lemma_first_bad_rule(rules: Seq<RuleView>, from: nat)
    ensures
        first_bad_rule(rules, from) is None <==> forall|k: int|
            from <= k < rules.len() ==> (#[trigger] rules[k]).checked() is Ok,
    decreases rules.len() - from,
{
    if from < rules.len() {
        lemma_first_bad_rule(rules, from + 1);
    }
}

/// Whether every rule of an optional conversion passes.
pub open spec fn all_rules_pass(o: Option<ConversionView>) -> bool {
    o matches Some(c) ==> forall|k: int| 0 <= k < c.rules.len() ==> (#[trigger] c.rules[k]).checked()
        is Ok
}

/// A conversion of message and result is valid exactly when every rule for
/// the message and every rule for the result passes.
pub proof fn lemma_conversion_checked(c: MsgAndResultConversionView)
    ensures
        c.checked() is Ok <==> all_rules_pass(c.msg) && all_rules_pass(c.result),
{
    if let Some(m) = c.msg {
        lemma_first_bad_rule(m.rules, 0);
    }
    if let Some(r) = c.result {
        lemma_first_bad_rule(r.rules, 0);
    }
}

} // verus!
