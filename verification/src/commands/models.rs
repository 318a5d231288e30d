//! Choosing an embedding model and naming the tables a switch migrates
//! through.  The migration itself stands outside.

use vstd::prelude::*;

use crate::services::model_registry::spec_info;
use crate::services::model_registry::supported_models;
use crate::services::model_registry::spec_supported_models;
use crate::services::model_registry::ModelInfo;
use crate::text::chars_of;
use crate::text::concat;
use crate::text::concat_str;
use crate::text::digits_u64;
use crate::text::spec_digits;
use crate::text::string_of;

verus! {

/// The supported models, for the settings screen.
pub fn get_supported_embedding_models() -> (r: Vec<ModelInfo>)
    ensures
        r@ == spec_supported_models(),
{
    supported_models()
}

/// The value of a string of decimal digits.
pub open spec fn digits_value(s: Seq<char>) -> nat
    decreases s.len(),
{
    if s.len() == 0 {
        0
    } else {
        digits_value(s.drop_last()) * 10 + ((s.last() as u32) - 48) as nat
    }
}

pub open spec fn all_digits(s: Seq<char>) -> bool {
    forall|i: int| 0 <= i < s.len() ==> '0' <= #[trigger] s[i] <= '9'
}

/// What `str::parse::<u64>` gives: an optional `+`, then one digit or more,
/// whose value fits in a `u64`.
pub open spec fn spec_parse_u64(s: Seq<char>) -> Option<nat> {
    let body = if s.len() > 0 && s[0] == '+' {
        s.drop_first()
    } else {
        s
    };
    if body.len() > 0 && all_digits(body) && digits_value(body) <= u64::MAX {
        Some(digits_value(body))
    } else {
        None
    }
}

/// `str::parse::<u64>`.
pub fn parse_u64(text: &str) -> (r: Option<u64>)
    ensures
        match r {
            Some(v) => spec_parse_u64(text@) == Some(v as nat),
            None => spec_parse_u64(text@) is None,
        },
{
    let s = chars_of(text);
    let start: usize = if s.len() > 0 && s[0] == '+' {
        1
    } else {
        0
    };
    let ghost body = if s@.len() > 0 && s@[0] == '+' {
        s@.drop_first()
    } else {
        s@
    };
    assert(body =~= s@.skip(start as int));
    if start == s.len() {
        return None;
    }
    let mut value: u64 = 0;
    let mut i: usize = start;
    assert(s@.subrange(start as int, start as int) =~= Seq::<char>::empty());
    while i < s.len()
        invariant
            start <= i <= s.len(),
            s@ == text@,
            body == (if s@.len() > 0 && s@[0] == '+' {
                s@.drop_first()
            } else {
                s@
            }),
            body =~= s@.skip(start as int),
            value == digits_value(s@.subrange(start as int, i as int)),
            all_digits(s@.subrange(start as int, i as int)),
        decreases s.len() - i,
    {
        let c = s[i];
        assert(s@.subrange(start as int, i + 1).drop_last() =~= s@.subrange(start as int, i as int));
        if !('0' <= c && c <= '9') {
            assert(!all_digits(body)) by {
                assert(body[i - start] == c);
            }
            return None;
        }
        let d: u64 = (c as u32 - 48) as u64;
        if value > (u64::MAX - d) / 10 {
            proof {
                let rest = s@.subrange(start as int, i + 1);
                assert(digits_value(rest) == value * 10 + d);
                assert(digits_value(rest) > u64::MAX) by (nonlinear_arith)
                    requires
                        value > (u64::MAX - d) / 10,
                        d <= 9,
                        digits_value(rest) == value * 10 + d,
                ;
                assert(body.take((i + 1 - start) as int) =~= rest);
                if all_digits(body) {
                    lemma_digits_value_prefix(body, (i + 1 - start) as int);
                }
            }
            return None;
        }
        assert(value * 10 + d <= u64::MAX) by (nonlinear_arith)
            requires
                value <= (u64::MAX - d) / 10,
                d <= 9,
        ;
        value = value * 10 + d;
        i += 1;
        assert(all_digits(s@.subrange(start as int, i as int)));
    }
    assert(s@.subrange(start as int, i as int) =~= body);
    Some(value)
}

/// A longer run of digits is worth at least as much as its prefix.
pub proof fn lemma_digits_value_prefix(s: Seq<char>, k: int)
    requires
        0 <= k <= s.len(),
        all_digits(s),
    ensures
        digits_value(s.take(k)) <= digits_value(s),
    decreases s.len() - k,
{
    if k < s.len() {
        lemma_digits_value_prefix(s, k + 1);
        assert(s.take(k + 1).drop_last() =~= s.take(k));
        let c = s.take(k + 1).last();
        assert('0' <= c <= '9');
        assert(digits_value(s.take(k)) <= digits_value(s.take(k + 1))) by (nonlinear_arith)
            requires
                digits_value(s.take(k + 1)) == digits_value(s.take(k)) * 10 + ((c as u32) - 48) as nat,
        ;
    } else {
        assert(s.take(k) =~= s);
    }
}

/// The version a new index gets: one more than the active one, which counts
/// as 1 where it is not a number.
pub open spec fn spec_next_version(active_version: Seq<char>) -> nat {
    match spec_parse_u64(active_version) {
        Some(v) => v + 1,
        None => 2,
    }
}

pub fn next_model_version(active_version: &str) -> (r: u64)
    requires
        spec_parse_u64(active_version@) != Some(u64::MAX as nat),
    ensures
        r == spec_next_version(active_version@),
{
    match parse_u64(active_version) {
        Some(v) => v + 1,
        None => 2,
    }
}

/// A switch to `requested` while `active` is in use: refused where the model
/// is not supported, nothing to do (`Ok(None)`) where it is already active,
/// else the new index version and the table it is built in.
pub fn plan_model_switch(active_model: &str, active_version: &str, requested: &str) -> (r: Result<
    Option<(u64, String)>,
    String,
>)
    requires
        spec_info(requested@) is Some && active_model@ != requested@ ==> spec_parse_u64(
            active_version@,
        ) != Some(u64::MAX as nat),
    ensures
        spec_info(requested@) is None ==> (r matches Err(e) && e@ == "Unsupported embedding model"@),
        spec_info(requested@) is Some && active_model@ == requested@ ==> r matches Ok(None),
        spec_info(requested@) is Some && active_model@ != requested@ ==> (r matches Ok(Some(
            (v, t),
        )) && v == spec_next_version(active_version@) && t@ == "clips_embeddings_migration_"@
            + spec_digits(v as nat)),
{
    if crate::services::model_registry::info(requested).is_none() {
        return Err(string_of(&chars_of("Unsupported embedding model")));
    }
    if crate::text::chars_eq(&chars_of(active_model), &chars_of(requested)) {
        return Ok(None);
    }
    let version = next_model_version(active_version);
    Ok(Some((version, migration_table(version))))
}

/// The table a migration to index `version` is built in.
pub fn migration_table(version: u64) -> (r: String)
    ensures
        r@ == "clips_embeddings_migration_"@ + spec_digits(version as nat),
{
    string_of(&concat(&chars_of("clips_embeddings_migration_"), &digits_u64(version)))
}

/// The name the active table is moved to while a migration swaps it out.
pub fn retired_table(active_table: &str, version: &str) -> (r: String)
    ensures
        r@ == active_table@ + "_old_"@ + version@,
{
    let a = concat_str(&chars_of(active_table), "_old_");
    string_of(&concat(&a, &chars_of(version)))
}

/// A migration always builds a newer index than the active one.
pub proof fn lemma_next_version_is_newer(active_version: Seq<char>)
    ensures
        spec_parse_u64(active_version) matches Some(n) ==> spec_next_version(active_version) > n,
        spec_next_version(active_version) >= 1,
{
}

} // verus!
