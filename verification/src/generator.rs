//! What the traffic generator sends and when it reports: the names of its
//! tables and columns, the parts of a TCP authentication argument, and the
//! requests after which statistics are due.

use crate::text::{decimal, push_char, push_decimal, push_str};
use vstd::prelude::*;

verus! {

/// `prefix` followed by the decimal notation of `index`.
pub open spec fn indexed_text(prefix: Seq<char>, index: nat) -> Seq<char> {
    prefix + decimal(index)
}

/// `prefix` followed by the decimal notation of `index`.
pub fn indexed_name(prefix: &str, index: usize) -> (r: String)
    ensures
        r@ == indexed_text(prefix@, index as nat),
{
    let mut out = String::new();
    push_str(&mut out, prefix);
    assert(out@ == prefix@);
    push_decimal(&mut out, index as u64);
    out
}

/// The names `prefix0`, `prefix1`, and so on, `count` of them.
pub fn column_names(prefix: &str, count: usize) -> (r: Vec<String>)
    ensures
        r@.len() == count,
        forall|i: int| 0 <= i < count ==> (#[trigger] r@[i])@ == indexed_text(prefix@, i as nat),
{
    let mut names: Vec<String> = Vec::new();
    let mut i: usize = 0;
    while i < count
        invariant
            i <= count,
            names@.len() == i,
            forall|k: int| 0 <= k < i ==> (#[trigger] names@[k])@ == indexed_text(prefix@, k as nat),
        decreases count - i,
    {
        names.push(indexed_name(prefix, i));
        i += 1;
    }
    names
}

/// The name of table `index` of several: the table name, an underscore, and
/// the index.
pub open spec fn table_text(table_name: Seq<char>, index: nat) -> Seq<char> {
    indexed_text(table_name + seq!['_'], index)
}

/// The names of the tables that are written to: the table name itself where
/// there is one table, and the table name with an underscore and the index of
/// the table where there are several.
pub fn table_names(table_name: &str, table_count: usize) -> (r: Vec<String>)
    ensures
        table_count == 1 ==> r@.len() == 1 && r@[0]@ == table_name@,
        table_count != 1 ==> r@.len() == table_count && forall|i: int|
            0 <= i < table_count ==> (#[trigger] r@[i])@ == table_text(table_name@, i as nat),
{
    let mut names: Vec<String> = Vec::new();
    if table_count == 1 {
        let mut out = String::new();
        push_str(&mut out, table_name);
        assert(out@ == table_name@);
        names.push(out);
        return names;
    }
    let mut prefix = String::new();
    push_str(&mut prefix, table_name);
    push_char(&mut prefix, '_');
    assert(prefix@ == table_name@ + seq!['_']);
    column_names(prefix.as_str(), table_count)
}

/// The parts of `text` between its slashes, in their order: one part more
/// than there are slashes.
pub open spec fn slash_parts(text: Seq<char>) -> Seq<Seq<char>>
    decreases text.len(),
{
    if text.len() == 0 {
        seq![Seq::empty()]
    } else {
        let parts = slash_parts(text.drop_last());
        if text.last() == '/' {
            parts.push(Seq::empty())
        } else {
            parts.update(parts.len() - 1, parts.last().push(text.last()))
        }
    }
}

/// The four parts of a TCP authentication argument.
#[derive(Debug, PartialEq, Eq)]
pub struct TcpAuth {
    pub key_id: String,
    pub priv_key: String,
    pub pub_key_x: String,
    pub pub_key_y: String,
}

/// The authentication that `text` gives: its four parts, where it has
/// exactly four.
pub open spec fn tcp_auth_parts(text: Seq<char>) -> Option<Seq<Seq<char>>> {
    if slash_parts(text).len() == 4 {
        Some(slash_parts(text))
    } else {
        None
    }
}

fn split_at_slashes(text: &str) -> (r: Vec<String>)
    ensures
        r@.len() == slash_parts(text@).len(),
        forall|i: int| 0 <= i < r@.len() ==> (#[trigger] r@[i])@ == slash_parts(text@)[i],
{
    let n = text.unicode_len();
    let mut parts: Vec<String> = Vec::new();
    let mut current = String::new();
    let mut i: usize = 0;
    while i < n
        invariant
            i <= n,
            n == text@.len(),
            parts@.len() + 1 == slash_parts(text@.take(i as int)).len(),
            forall|k: int|
                0 <= k < parts@.len() ==> (#[trigger] parts@[k])@ == slash_parts(
                    text@.take(i as int),
                )[k],
            current@ == slash_parts(text@.take(i as int)).last(),
        decreases n - i,
    {
        proof {
            assert(text@.take(i + 1).drop_last() == text@.take(i as int));
            assert(text@.take(i + 1).last() == text@[i as int]);
        }
        let c = text.get_char(i);
        if c == '/' {
            parts.push(current);
            current = String::new();
        } else {
            current.push(c);
        }
        i += 1;
    }
    proof {
        assert(text@.take(i as int) == text@);
    }
    parts.push(current);
    parts
}

/// Splits a TCP authentication argument of the form
/// `key_id/priv_key/pub_key_x/pub_key_y` into its four parts. An argument
/// with fewer or more parts is refused.
pub fn split_tcp_auth(auth: &str) -> (r: Option<TcpAuth>)
    ensures
        match r {
            Some(parts) => tcp_auth_parts(auth@) == Some(
                seq![parts.key_id@, parts.priv_key@, parts.pub_key_x@, parts.pub_key_y@],
            ),
            None => tcp_auth_parts(auth@) is None,
        },
{
    let mut parts = split_at_slashes(auth);
    if parts.len() != 4 {
        return None;
    }
    let ghost all = parts@;
    let pub_key_y = parts.pop().unwrap();
    let pub_key_x = parts.pop().unwrap();
    let priv_key = parts.pop().unwrap();
    let key_id = parts.pop().unwrap();
    let found = TcpAuth { key_id, priv_key, pub_key_x, pub_key_y };
    assert(found.key_id == all[0] && found.priv_key == all[1] && found.pub_key_x == all[2]
        && found.pub_key_y == all[3]);
    assert(slash_parts(auth@) =~= seq![
        found.key_id@,
        found.priv_key@,
        found.pub_key_x@,
        found.pub_key_y@,
    ]);
    Some(found)
}

/// Statistics are due after request `request_index`: after every
/// `stats_frequency` requests, but not after the first one. A frequency of
/// zero asks for no statistics.
pub fn stats_due(request_index: usize, stats_frequency: usize) -> (r: bool)
    ensures
        r == (request_index != 0 && stats_frequency != 0 && request_index % stats_frequency == 0),
{
    request_index != 0 && stats_frequency != 0 && request_index % stats_frequency == 0
}

/// The largest frequency of statistics at which every request is marked
/// with a dot.
pub const DOT_FREQUENCY_LIMIT: usize = 20;

/// Whether every request is marked with a dot.
pub fn dots_shown(stats_frequency: usize) -> (r: bool)
    ensures
        r == (stats_frequency <= DOT_FREQUENCY_LIMIT),
{
    stats_frequency <= DOT_FREQUENCY_LIMIT
}

} // verus!
