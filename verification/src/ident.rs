//! Client identifiers and topic names. A client identifier embeds the
//! microsecond timestamp of the attempt, so identifiers minted at different
//! instants are always distinct.
use vstd::prelude::*;

use crate::numerals::append_i64;
use crate::numerals::int_str;

verus! {

/// Publisher client identifier: `{prefix}/{devid}/{micros}`.
pub open spec fn pub_client_id(prefix: Seq<char>, devid: Seq<char>, micros: int) -> Seq<char> {
    prefix + seq!['/'] + devid + seq!['/'] + int_str(micros)
}

/// Subscriber client identifier: `{prefix}/{micros}`. The device id is
/// deliberately absent, mirroring the asymmetry of the two modes.
pub open spec fn sub_client_id(prefix: Seq<char>, micros: int) -> Seq<char> {
    prefix + seq!['/'] + int_str(micros)
}

/// The topic the agent publishes and subscribes on: `{prefix}/{devid}/data`.
pub open spec fn data_topic(prefix: Seq<char>, devid: Seq<char>) -> Seq<char> {
    prefix + seq!['/'] + devid + "/data"@
}

pub fn make_pub_client_id(prefix: &str, devid: &str, micros: i64) -> (r: String)
    ensures
        r@ == pub_client_id(prefix@, devid@, micros as int),
{
    let mut out = String::from_str(prefix);
    out.append("/");
    out.append(devid);
    out.append("/");
    append_i64(&mut out, micros);
    proof {
        reveal_strlit("/");
        assert("/"@ =~= seq!['/']);
        assert(out@ =~= pub_client_id(prefix@, devid@, micros as int));
    }
    out
}

pub fn make_sub_client_id(prefix: &str, micros: i64) -> (r: String)
    ensures
        r@ == sub_client_id(prefix@, micros as int),
{
    let mut out = String::from_str(prefix);
    out.append("/");
    append_i64(&mut out, micros);
    proof {
        reveal_strlit("/");
        assert("/"@ =~= seq!['/']);
        assert(out@ =~= sub_client_id(prefix@, micros as int));
    }
    out
}

pub fn make_data_topic(prefix: &str, devid: &str) -> (r: String)
    ensures
        r@ == data_topic(prefix@, devid@),
{
    let mut out = String::from_str(prefix);
    out.append("/");
    out.append(devid);
    out.append("/data");
    proof {
        reveal_strlit("/");
        assert("/"@ =~= seq!['/']);
        assert(out@ =~= data_topic(prefix@, devid@));
    }
    out
}

/// Publisher client identifiers minted for the same prefix and device at
/// different microsecond instants are never equal.
pub proof fn lemma_pub_client_id_unique(prefix: Seq<char>, devid: Seq<char>, m1: int, m2: int)
    requires
        m1 != m2,
        -(u64::MAX as int) <= m1 <= u64::MAX as int,
        -(u64::MAX as int) <= m2 <= u64::MAX as int,
    ensures
        pub_client_id(prefix, devid, m1) != pub_client_id(prefix, devid, m2),
{
    let pre = prefix + seq!['/'] + devid + seq!['/'];
    if pub_client_id(prefix, devid, m1) == pub_client_id(prefix, devid, m2) {
        let a = pre + int_str(m1);
        let b = pre + int_str(m2);
        assert(a == b);
        assert(a.skip(pre.len() as int) =~= int_str(m1));
        assert(b.skip(pre.len() as int) =~= int_str(m2));
        crate::numerals::lemma_int_str_injective(m1, m2);
    }
}

/// The same holds of subscriber client identifiers.
pub proof fn lemma_sub_client_id_unique(prefix: Seq<char>, m1: int, m2: int)
    requires
        m1 != m2,
        -(u64::MAX as int) <= m1 <= u64::MAX as int,
        -(u64::MAX as int) <= m2 <= u64::MAX as int,
    ensures
        sub_client_id(prefix, m1) != sub_client_id(prefix, m2),
{
    let pre = prefix + seq!['/'];
    if sub_client_id(prefix, m1) == sub_client_id(prefix, m2) {
        let a = pre + int_str(m1);
        let b = pre + int_str(m2);
        assert(a == b);
        assert(a.skip(pre.len() as int) =~= int_str(m1));
        assert(b.skip(pre.len() as int) =~= int_str(m2));
        crate::numerals::lemma_int_str_injective(m1, m2);
    }
}

} // verus!
