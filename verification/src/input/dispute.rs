//! How a clash of names between inputs is to be resolved.
use vstd::prelude::*;

verus! {

/// A rule for resolving a clash of names: a prefix or a suffix, applied
/// always when `always_apply` is set.
#[derive(Debug, PartialEq)]
pub struct Dispute {
    pub always_apply: Option<bool>,
    pub dispute: PrefixOrSuffix,
}

/// Either a prefix or a suffix.
#[derive(Debug, PartialEq)]
pub enum PrefixOrSuffix {
    Prefix { prefix: String },
    Suffix { suffix: String },
}

/// The view of an optional string slice.
pub open spec fn opt_str_view(s: Option<&str>) -> Option<Seq<char>> {
    match s {
        Some(s) => Some(s@),
        None => None,
    }
}

impl PrefixOrSuffix {
    /// The prefix, if this is one.
    pub open spec fn prefix_spec(&self) -> Option<Seq<char>> {
        match self {
            PrefixOrSuffix::Prefix { prefix } => Some(prefix@),
            PrefixOrSuffix::Suffix { .. } => None,
        }
    }

    /// The suffix, if this is one.
    pub open spec fn suffix_spec(&self) -> Option<Seq<char>> {
        match self {
            PrefixOrSuffix::Prefix { .. } => None,
            PrefixOrSuffix::Suffix { suffix } => Some(suffix@),
        }
    }

    /// The prefix, if this is one.
    pub fn get_prefix(&self) -> (r: Option<&str>)
        ensures
            opt_str_view(r) == self.prefix_spec(),
    {
        match self {
            PrefixOrSuffix::Prefix { prefix } => Some(prefix.as_str()),
            PrefixOrSuffix::Suffix { .. } => None,
        }
    }

    /// The suffix, if this is one.
    pub fn get_suffix(&self) -> (r: Option<&str>)
        ensures
            opt_str_view(r) == self.suffix_spec(),
    {
        match self {
            PrefixOrSuffix::Prefix { .. } => None,
            PrefixOrSuffix::Suffix { suffix } => Some(suffix.as_str()),
        }
    }

    /// A prefix.
    pub fn prefix(prefix: &str) -> (r: Self)
        ensures
            r.prefix_spec() == Some(prefix@),
            r.suffix_spec() is None,
    {
        PrefixOrSuffix::Prefix { prefix: prefix.to_owned() }
    }

    /// A suffix.
    pub fn suffix(suffix: &str) -> (r: Self)
        ensures
            r.suffix_spec() == Some(suffix@),
            r.prefix_spec() is None,
    {
        PrefixOrSuffix::Suffix { suffix: suffix.to_owned() }
    }
}

impl Dispute {
    /// Whether the rule applies always (unset counts as no).
    pub open spec fn applies_always(&self) -> bool {
        self.always_apply == Some(true)
    }

    /// The prefix that the rule asks for whatever the names.
    pub open spec fn prefix_needed(&self) -> Option<Seq<char>> {
        if self.applies_always() {
            self.dispute.prefix_spec()
        } else {
            None
        }
    }

    /// The suffix that the rule asks for whatever the names.
    pub open spec fn suffix_needed(&self) -> Option<Seq<char>> {
        if self.applies_always() {
            self.dispute.suffix_spec()
        } else {
            None
        }
    }

    /// The prefix to apply always: the prefix when the rule is a prefix and
    /// applies always, else `None`.
    pub fn need_prefix(&self) -> (r: Option<&str>)
        ensures
            opt_str_view(r) == self.prefix_needed(),
    {
        let always = match self.always_apply {
            Some(b) => b,
            None => false,
        };
        if always {
            self.dispute.get_prefix()
        } else {
            None
        }
    }

    /// The suffix to apply always: the suffix when the rule is a suffix and
    /// applies always, else `None`.
    pub fn need_suffix(&self) -> (r: Option<&str>)
        ensures
            opt_str_view(r) == self.suffix_needed(),
    {
        let always = match self.always_apply {
            Some(b) => b,
            None => false,
        };
        if always {
            self.dispute.get_suffix()
        } else {
            None
        }
    }
}

/// A rule never asks for both a prefix and a suffix, and asks for neither
/// unless it applies always.
pub proof fn law_dispute_prefix_or_suffix(d: Dispute)
    ensures
        !(d.prefix_needed() is Some && d.suffix_needed() is Some),
        !d.applies_always() ==> d.prefix_needed() is None && d.suffix_needed() is None,
{
}

} // verus!
