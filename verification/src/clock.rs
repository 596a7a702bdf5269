//! The wall clock, and the names that are made from it.
use vstd::prelude::*;
use vstd::string::*;

use crate::text::dec_i64;

verus! {

/// Milliseconds since 1970 by the system clock. Calls `timestamp_millis` of chrono on what
/// `chrono::Utc::now` returns; nothing is claimed of the number, since it depends on the time. The
/// call panics where the machine's clock stands before 1970.
#[verifier::external_body]
pub(crate) fn now_millis() -> (ms: i64) {
    chrono::Utc::now().timestamp_millis()
}

/// A name made of a prefix and a time.
pub open spec fn stamped(prefix: Seq<char>, ms: i64) -> Seq<char> {
    prefix + crate::text::signed_decimal(ms as int)
}

fn stamp(prefix: &str, ms: i64) -> (r: String)
    ensures
        r@ == stamped(prefix@, ms),
{
    let mut r = prefix.to_string();
    r.append(dec_i64(ms).as_str());
    r
}

/// The name of an initialisation that starts at `ms`.
pub fn init_id_at(ms: i64) -> (r: String)
    ensures
        r@ == stamped("init-"@, ms),
{
    stamp("init-", ms)
}

/// The name of a capture that starts at `ms`.
pub fn capture_id_at(ms: i64) -> (r: String)
    ensures
        r@ == stamped("cap-"@, ms),
{
    stamp("cap-", ms)
}

/// The name of an initialisation that starts now.
pub fn new_init_id() -> (r: String)
    ensures
        exists|ms: i64| r@ == #[trigger] stamped("init-"@, ms),
{
    init_id_at(now_millis())
}

/// The name of a capture that starts now.
pub fn new_capture_id() -> (r: String)
    ensures
        exists|ms: i64| r@ == #[trigger] stamped("cap-"@, ms),
{
    capture_id_at(now_millis())
}

proof fn lemma_no_sign_in_digits(n: nat)
    ensures
        crate::text::decimal(n)[0] != '-',
        crate::text::decimal(n).len() > 0,
{
    crate::text::law_decimal_reads_back(n);
}

/// Names made at different milliseconds are different.
pub proof fn law_stamped_names_are_distinct(prefix: Seq<char>, a: i64, b: i64)
    requires
        stamped(prefix, a) == stamped(prefix, b),
    ensures
        a == b,
{
    let x = crate::text::signed_decimal(a as int);
    let y = crate::text::signed_decimal(b as int);
    assert(stamped(prefix, a).skip(prefix.len() as int) =~= x);
    assert(stamped(prefix, b).skip(prefix.len() as int) =~= y);
    assert(x == y);
    if a < 0 {
        crate::text::law_decimal_reads_back((-a) as nat);
        assert(x[0] == '-');
        assert(x.skip(1) =~= crate::text::decimal((-a) as nat));
    } else {
        crate::text::law_decimal_reads_back(a as nat);
        lemma_no_sign_in_digits(a as nat);
    }
    if b < 0 {
        crate::text::law_decimal_reads_back((-b) as nat);
        assert(y[0] == '-');
        assert(y.skip(1) =~= crate::text::decimal((-b) as nat));
    } else {
        crate::text::law_decimal_reads_back(b as nat);
        lemma_no_sign_in_digits(b as nat);
    }
}

/// A stamped name is its prefix, followed by the time in decimal.
pub proof fn law_a_stamped_name_tells_its_time(prefix: Seq<char>, ms: i64)
    ensures
        stamped(prefix, ms).len() > prefix.len(),
        stamped(prefix, ms).take(prefix.len() as int) == prefix,
        ms >= 0 ==> {
            let rest = stamped(prefix, ms).skip(prefix.len() as int);
            crate::text::all_digits(rest) && crate::text::decimal_value(rest) == ms
        },
        ms < 0 ==> {
            let rest = stamped(prefix, ms).skip(prefix.len() as int);
            rest[0] == '-' && crate::text::all_digits(rest.skip(1)) && crate::text::decimal_value(
                rest.skip(1),
            ) == -ms
        },
{
    let text = crate::text::signed_decimal(ms as int);
    assert(stamped(prefix, ms).take(prefix.len() as int) =~= prefix);
    assert(stamped(prefix, ms).skip(prefix.len() as int) =~= text);
    if ms < 0 {
        crate::text::law_decimal_reads_back((-ms) as nat);
        assert(text.skip(1) =~= crate::text::decimal((-ms) as nat));
    } else {
        crate::text::law_decimal_reads_back(ms as nat);
    }
}

} // verus!
