//! Validation rules attached to struct fields, and their translation to
//! imperative TypeScript checks and to Zod schema constraint chains.

use vstd::prelude::*;

use crate::text::{push_char, spec_dec, u128_to_string, usize_to_string};

verus! {

/// A numeric bound written as a decimal literal: sign, integer part and
/// fractional digits. `1.5` is `{ neg: false, whole: 1, frac: "5" }`; an
/// integral bound has an empty `frac`.
#[derive(Debug, Clone)]
pub struct RangeBound {
    /// Whether the literal is negative.
    pub neg: bool,
    /// The magnitude of the integer part.
    pub whole: u128,
    /// The fractional digits, empty for an integral bound.
    pub frac: String,
}

/// The literal text of a bound: `-` sign, integer part, then `.` and the
/// fractional digits when there are any.
pub open spec fn spec_bound_text(b: RangeBound) -> Seq<char> {
    (if b.neg {
        seq!['-']
    } else {
        Seq::<char>::empty()
    }) + spec_dec(b.whole as nat) + (if b.frac@.len() > 0 {
        seq!['.'] + b.frac@
    } else {
        Seq::<char>::empty()
    })
}

/// The bound truncated toward zero, as an integer literal. A zero integer
/// part loses its sign.
pub open spec fn spec_bound_trunc_text(b: RangeBound) -> Seq<char> {
    if b.whole == 0 {
        seq!['0']
    } else {
        (if b.neg {
            seq!['-']
        } else {
            Seq::<char>::empty()
        }) + spec_dec(b.whole as nat)
    }
}

impl RangeBound {
    /// A non-negative integral bound.
    pub fn integer(whole: u128) -> (r: Self)
        ensures
            r.neg == false,
            r.whole == whole,
            r.frac@.len() == 0,
    {
        Self { neg: false, whole, frac: String::new() }
    }

    /// A bound assembled from sign, integer part and fractional digits.
    pub fn from_parts(neg: bool, whole: u128, frac: &str) -> (r: Self)
        ensures
            r.neg == neg,
            r.whole == whole,
            r.frac@ == frac@,
    {
        Self { neg, whole, frac: String::from_str(frac) }
    }

    /// The literal text of the bound.
    pub fn to_text(&self) -> (r: String)
        ensures
            r@ == spec_bound_text(*self),
    {
        let mut r = String::new();
        if self.neg {
            push_char(&mut r, '-');
        }
        let w = u128_to_string(self.whole);
        r.append(w.as_str());
        if self.frac.as_str().unicode_len() > 0 {
            push_char(&mut r, '.');
            r.append(self.frac.as_str());
        }
        proof {
            assert(r@ =~= spec_bound_text(*self));
        }
        r
    }

    /// The bound truncated toward zero, as an integer literal.
    pub fn to_trunc_text(&self) -> (r: String)
        ensures
            r@ == spec_bound_trunc_text(*self),
    {
        let mut r = String::new();
        if self.whole == 0 {
            push_char(&mut r, '0');
        } else {
            if self.neg {
                push_char(&mut r, '-');
            }
            let w = u128_to_string(self.whole);
            r.append(w.as_str());
        }
        proof {
            assert(r@ =~= spec_bound_trunc_text(*self));
        }
        r
    }
}

/// A validation rule attached to one field.
#[derive(Debug, Clone)]
pub enum ValidationRule {
    /// A numeric range; either end may be absent.
    Range { min: Option<RangeBound>, max: Option<RangeBound> },
    /// A size bound; either end may be absent.
    Length { min: Option<usize>, max: Option<usize> },
    /// A regular expression the value must match.
    Pattern(String),
    /// The value must look like an email address.
    Email,
    /// The value must look like an http(s) URL.
    Url,
    /// The value must be present and non-null.
    Required,
    /// A call to an externally defined `validate<Name>` function.
    Custom { name: String, message: Option<String> },
}

/// The boolean TypeScript check for one rule on field `f`.
pub open spec fn spec_ts_check(r: ValidationRule, f: Seq<char>) -> Seq<char> {
    match r {
        ValidationRule::Range { min, max } => {
            if min is None && max is None {
                "true"@
            } else {
                (if min is Some {
                    "obj."@ + f + " >= "@ + spec_bound_text(min->0) + (if max is Some {
                        " && "@
                    } else {
                        Seq::<char>::empty()
                    })
                } else {
                    Seq::<char>::empty()
                }) + (if max is Some {
                    "obj."@ + f + " <= "@ + spec_bound_text(max->0)
                } else {
                    Seq::<char>::empty()
                })
            }
        },
        ValidationRule::Length { min, max } => {
            if min is None && max is None {
                "true"@
            } else {
                (if min is Some {
                    "obj."@ + f + ".length >= "@ + spec_dec(min->0 as nat) + (if max is Some {
                        " && "@
                    } else {
                        Seq::<char>::empty()
                    })
                } else {
                    Seq::<char>::empty()
                }) + (if max is Some {
                    "obj."@ + f + ".length <= "@ + spec_dec(max->0 as nat)
                } else {
                    Seq::<char>::empty()
                })
            }
        },
        ValidationRule::Pattern(p) => "/"@ + p@ + "/.test(obj."@ + f + ")"@,
        ValidationRule::Email => "/^[^\\s@]+@[^\\s@]+\\.[^\\s@]+$/.test(obj."@ + f + ")"@,
        ValidationRule::Url => "/^https?:\\/\\/[^\\s]+$/.test(obj."@ + f + ")"@,
        ValidationRule::Required => "obj."@ + f + " !== undefined && obj."@ + f + " !== null"@,
        ValidationRule::Custom { name, message } => "validate"@ + name@ + "(obj."@ + f + ")"@,
    }
}

/// The Zod constraint-chain suffix for one rule. Under `is_bigint` a range
/// bound is written as a bigint literal, truncated toward zero.
pub open spec fn spec_zod_rule(r: ValidationRule, is_bigint: bool) -> Seq<char> {
    match r {
        ValidationRule::Range { min, max } => {
            (if min is Some {
                if is_bigint {
                    ".min("@ + spec_bound_trunc_text(min->0) + "n)"@
                } else {
                    ".min("@ + spec_bound_text(min->0) + ")"@
                }
            } else {
                Seq::<char>::empty()
            }) + (if max is Some {
                if is_bigint {
                    ".max("@ + spec_bound_trunc_text(max->0) + "n)"@
                } else {
                    ".max("@ + spec_bound_text(max->0) + ")"@
                }
            } else {
                Seq::<char>::empty()
            })
        },
        ValidationRule::Length { min, max } => {
            (if min is Some {
                ".min("@ + spec_dec(min->0 as nat) + ")"@
            } else {
                Seq::<char>::empty()
            }) + (if max is Some {
                ".max("@ + spec_dec(max->0 as nat) + ")"@
            } else {
                Seq::<char>::empty()
            })
        },
        ValidationRule::Pattern(p) => ".regex(/"@ + p@ + "/)"@,
        ValidationRule::Email => ".email()"@,
        ValidationRule::Url => ".url()"@,
        ValidationRule::Required => Seq::<char>::empty(),
        ValidationRule::Custom { name, message } => {
            if message is Some {
                ".refine(validate"@ + name@ + ", { message: \""@ + message->0@ + "\" })"@
            } else {
                ".refine(validate"@ + name@ + ")"@
            }
        },
    }
}

/// Whether rendering this rule for a bigint-typed field would truncate a
/// fractional bound.
pub open spec fn spec_zod_truncates(r: ValidationRule, is_bigint: bool) -> bool {
    is_bigint && match r {
        ValidationRule::Range { min, max } => (min is Some && min->0.frac@.len() > 0) || (max
            is Some && max->0.frac@.len() > 0),
        _ => false,
    }
}

impl ValidationRule {
    /// The boolean TypeScript check text for this rule on `field_name`.
    pub fn to_typescript_check(&self, field_name: &str) -> (r: String)
        ensures
            r@ == spec_ts_check(*self, field_name@),
    {
        match self {
            ValidationRule::Range { min, max } => {
                let mut r = String::new();
                if min.is_some() || max.is_some() {
                    if let Some(m) = min {
                        r.append("obj.");
                        r.append(field_name);
                        r.append(" >= ");
                        let t = m.to_text();
                        r.append(t.as_str());
                        if max.is_some() {
                            r.append(" && ");
                        }
                    }
                    if let Some(x) = max {
                        r.append("obj.");
                        r.append(field_name);
                        r.append(" <= ");
                        let t = x.to_text();
                        r.append(t.as_str());
                    }
                } else {
                    r.append("true");
                }
                proof {
                    assert(r@ =~= spec_ts_check(*self, field_name@));
                }
                r
            },
            ValidationRule::Length { min, max } => {
                let mut r = String::new();
                if min.is_some() || max.is_some() {
                    if let Some(m) = min {
                        r.append("obj.");
                        r.append(field_name);
                        r.append(".length >= ");
                        let t = usize_to_string(*m);
                        r.append(t.as_str());
                        if max.is_some() {
                            r.append(" && ");
                        }
                    }
                    if let Some(x) = max {
                        r.append("obj.");
                        r.append(field_name);
                        r.append(".length <= ");
                        let t = usize_to_string(*x);
                        r.append(t.as_str());
                    }
                } else {
                    r.append("true");
                }
                proof {
                    assert(r@ =~= spec_ts_check(*self, field_name@));
                }
                r
            },
            ValidationRule::Pattern(p) => {
                let mut r = String::from_str("/");
                r.append(p.as_str());
                r.append("/.test(obj.");
                r.append(field_name);
                r.append(")");
                proof {
                    assert(r@ =~= spec_ts_check(*self, field_name@));
                }
                r
            },
            ValidationRule::Email => {
                let mut r = String::from_str("/^[^\\s@]+@[^\\s@]+\\.[^\\s@]+$/.test(obj.");
                r.append(field_name);
                r.append(")");
                proof {
                    assert(r@ =~= spec_ts_check(*self, field_name@));
                }
                r
            },
            ValidationRule::Url => {
                let mut r = String::from_str("/^https?:\\/\\/[^\\s]+$/.test(obj.");
                r.append(field_name);
                r.append(")");
                proof {
                    assert(r@ =~= spec_ts_check(*self, field_name@));
                }
                r
            },
            ValidationRule::Required => {
                let mut r = String::from_str("obj.");
                r.append(field_name);
                r.append(" !== undefined && obj.");
                r.append(field_name);
                r.append(" !== null");
                proof {
                    assert(r@ =~= spec_ts_check(*self, field_name@));
                }
                r
            },
            ValidationRule::Custom { name, message } => {
                let mut r = String::from_str("validate");
                r.append(name.as_str());
                r.append("(obj.");
                r.append(field_name);
                r.append(")");
                proof {
                    assert(r@ =~= spec_ts_check(*self, field_name@));
                }
                r
            },
        }
    }

    /// The Zod constraint-chain suffix for this rule.
    pub fn to_zod_schema(&self, is_bigint: bool) -> (r: String)
        ensures
            r@ == spec_zod_rule(*self, is_bigint),
    {
        match self {
            ValidationRule::Range { min, max } => {
                let mut r = String::new();
                if let Some(m) = min {
                    if is_bigint {
                        r.append(".min(");
                        let t = m.to_trunc_text();
                        r.append(t.as_str());
                        r.append("n)");
                    } else {
                        r.append(".min(");
                        let t = m.to_text();
                        r.append(t.as_str());
                        r.append(")");
                    }
                }
                if let Some(x) = max {
                    if is_bigint {
                        r.append(".max(");
                        let t = x.to_trunc_text();
                        r.append(t.as_str());
                        r.append("n)");
                    } else {
                        r.append(".max(");
                        let t = x.to_text();
                        r.append(t.as_str());
                        r.append(")");
                    }
                }
                proof {
                    assert(r@ =~= spec_zod_rule(*self, is_bigint));
                }
                r
            },
            ValidationRule::Length { min, max } => {
                let mut r = String::new();
                if let Some(m) = min {
                    r.append(".min(");
                    let t = usize_to_string(*m);
                    r.append(t.as_str());
                    r.append(")");
                }
                if let Some(x) = max {
                    r.append(".max(");
                    let t = usize_to_string(*x);
                    r.append(t.as_str());
                    r.append(")");
                }
                proof {
                    assert(r@ =~= spec_zod_rule(*self, is_bigint));
                }
                r
            },
            ValidationRule::Pattern(p) => {
                let mut r = String::from_str(".regex(/");
                r.append(p.as_str());
                r.append("/)");
                proof {
                    assert(r@ =~= spec_zod_rule(*self, is_bigint));
                }
                r
            },
            ValidationRule::Email => String::from_str(".email()"),
            ValidationRule::Url => String::from_str(".url()"),
            ValidationRule::Required => String::new(),
            ValidationRule::Custom { name, message } => {
                let mut r = String::from_str(".refine(validate");
                r.append(name.as_str());
                if let Some(msg) = message {
                    r.append(", { message: \"");
                    r.append(msg.as_str());
                    r.append("\" })");
                } else {
                    r.append(")");
                }
                proof {
                    assert(r@ =~= spec_zod_rule(*self, is_bigint));
                }
                r
            },
        }
    }

    /// Reports the one defect surface of the Zod translation: a fractional
    /// range bound on a bigint-typed field, which `to_zod_schema` truncates
    /// toward zero.
    pub fn truncates_for_bigint(&self, is_bigint: bool) -> (r: bool)
        ensures
            r == spec_zod_truncates(*self, is_bigint),
    {
        if !is_bigint {
            return false;
        }
        match self {
            ValidationRule::Range { min, max } => {
                let min_frac = match min {
                    Some(m) => m.frac.as_str().unicode_len() > 0,
                    None => false,
                };
                let max_frac = match max {
                    Some(x) => x.frac.as_str().unicode_len() > 0,
                    None => false,
                };
                min_frac || max_frac
            },
            _ => false,
        }
    }
}

} // verus!
