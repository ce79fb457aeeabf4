//! URLs of the `havi-frame://` scheme: `scheme://path?k=v&k2=v2`.
use crate::text::{string_from_utf8_lossy, lossy_text, pairs_view, chars_of, chars_eq, contains_char, find_char, first_index_of, has_prefix, push_str, slice_chars, split_char, split_on, starts_with, string_of};
use vstd::prelude::*;
use vstd::utf8::{decode_utf8, encode_utf8, valid_utf8};

verus! {

/// The value of an ASCII hexadecimal digit byte, either case.
pub open spec fn hex_value(b: u8) -> Option<nat> {
    if 48 <= b <= 57 {
        Some((b - 48) as nat)
    } else if 97 <= b <= 102 {
        Some((b - 87) as nat)
    } else if 65 <= b <= 70 {
        Some((b - 55) as nat)
    } else {
        None
    }
}

/// The bytes that `%XX` escapes and `+` stand for: a `%` followed by two
/// hex digits becomes that byte, `+` becomes a space, any other byte
/// (including a `%` not followed by two hex digits) stays.
pub open spec fn percent_decoded(b: Seq<u8>) -> Seq<u8>
    decreases b.len(),
{
    if b.len() == 0 {
        Seq::<u8>::empty()
    } else if b[0] == 37 && b.len() >= 3 && hex_value(b[1]) is Some && hex_value(b[2]) is Some {
        seq![(hex_value(b[1])->0 * 16 + hex_value(b[2])->0) as u8] + percent_decoded(b.skip(3))
    } else {
        seq![if b[0] == 43 { 32u8 } else { b[0] }] + percent_decoded(b.drop_first())
    }
}

/// Bytes holding neither `%` nor `+` decode to themselves.
pub proof fn law_plain_bytes_unchanged(b: Seq<u8>)
    requires
        !b.contains(37u8),
        !b.contains(43u8),
    ensures
        percent_decoded(b) == b,
    decreases b.len(),
{
    if b.len() > 0 {
        assert(b[0] != 37u8 && b[0] != 43u8) by {
            assert(b.contains(b[0]));
        }
        let rest = b.drop_first();
        assert(!rest.contains(37u8) && !rest.contains(43u8)) by {
            if rest.contains(37u8) {
                let j = choose|j: int| 0 <= j < rest.len() && rest[j] == 37u8;
                assert(b[j + 1] == 37u8);
            }
            if rest.contains(43u8) {
                let j = choose|j: int| 0 <= j < rest.len() && rest[j] == 43u8;
                assert(b[j + 1] == 43u8);
            }
        }
        law_plain_bytes_unchanged(rest);
        assert(b =~= seq![b[0]] + rest);
    }
}

/// Decoding never makes the bytes longer.
pub proof fn law_decoding_never_lengthens(b: Seq<u8>)
    ensures
        percent_decoded(b).len() <= b.len(),
    decreases b.len(),
{
    if b.len() > 0 {
        if b[0] == 37 && b.len() >= 3 && hex_value(b[1]) is Some && hex_value(b[2]) is Some {
            law_decoding_never_lengthens(b.skip(3));
        } else {
            law_decoding_never_lengthens(b.drop_first());
        }
    }
}

/// The uppercase hexadecimal digit byte of `d` (below 16).
pub open spec fn hex_digit_byte(d: nat) -> u8 {
    if d < 10 {
        (48 + d) as u8
    } else {
        (55 + d) as u8
    }
}

/// Every byte of `b` written as a `%XX` escape (uppercase hex).
pub open spec fn percent_encoded(b: Seq<u8>) -> Seq<u8>
    decreases b.len(),
{
    if b.len() == 0 {
        Seq::<u8>::empty()
    } else {
        seq![37u8, hex_digit_byte(b[0] as nat / 16), hex_digit_byte(b[0] as nat % 16)] + percent_encoded(
            b.drop_first(),
        )
    }
}

/// An escape is decoded once: `%XX` becomes its byte, and decoding goes on
/// after the escape, never looking at the byte it produced (so `%2520`
/// gives `%20`).
pub proof fn law_escape_decoded_once(hi: u8, lo: u8, rest: Seq<u8>)
    requires
        hex_value(hi) is Some,
        hex_value(lo) is Some,
    ensures
        percent_decoded(seq![37u8, hi, lo] + rest) == seq![(hex_value(hi)->0 * 16 + hex_value(lo)->0) as u8]
            + percent_decoded(rest),
{
    assert((seq![37u8, hi, lo] + rest).skip(3) =~= rest);
}

/// Escaping every byte and decoding gives the bytes back.
pub proof fn law_percent_round_trip(b: Seq<u8>)
    ensures
        percent_decoded(percent_encoded(b)) == b,
    decreases b.len(),
{
    if b.len() > 0 {
        let x = b[0];
        let e = percent_encoded(b);
        let hi = hex_digit_byte(x as nat / 16);
        let lo = hex_digit_byte(x as nat % 16);
        assert(hex_value(hi) == Some(x as nat / 16));
        assert(hex_value(lo) == Some(x as nat % 16));
        assert(e.skip(3) =~= percent_encoded(b.drop_first()));
        assert(e[0] == 37 && e[1] == hi && e[2] == lo);
        law_percent_round_trip(b.drop_first());
        assert((x as nat / 16) * 16 + x as nat % 16 == x) by (nonlinear_arith);
        assert(b =~= seq![x] + b.drop_first());
    }
}

/// The text whose characters are the (ASCII) bytes of `b`.
pub open spec fn ascii_text(b: Seq<u8>) -> Seq<char> {
    Seq::new(b.len(), |i: int| b[i] as char)
}

proof fn lemma_ascii_encode(b: Seq<u8>)
    requires
        forall|i: int| 0 <= i < b.len() ==> #[trigger] b[i] < 128,
    ensures
        encode_utf8(ascii_text(b)) == b,
    decreases b.len(),
{
    if b.len() > 0 {
        let t = ascii_text(b);
        let v: u8 = b[0];
        assert(t.drop_first() =~= ascii_text(b.drop_first()));
        lemma_ascii_encode(b.drop_first());
        let c: u32 = (v as char) as u32;
        assert(c == v as u32);
        assert(((c & 0x7F) as u8) == v) by (bit_vector)
            requires
                c == v as u32,
                v < 128,
        ;
        assert(vstd::utf8::encode_scalar(t[0] as u32) =~= seq![v]);
        assert(b =~= seq![v] + b.drop_first());
    }
}

proof fn lemma_percent_encoded_ascii(b: Seq<u8>)
    ensures
        forall|i: int| 0 <= i < percent_encoded(b).len() ==> #[trigger] percent_encoded(b)[i] < 128,
        percent_encoded(b).len() == 3 * b.len(),
    decreases b.len(),
{
    if b.len() > 0 {
        lemma_percent_encoded_ascii(b.drop_first());
        let x = b[0];
        assert(x as nat / 16 < 16) by (nonlinear_arith)
            requires
                x < 256,
        ;
    }
}

/// The text `percent_decode` makes of `s`.
pub open spec fn percent_decode_spec(s: Seq<char>) -> Seq<char> {
    if !s.contains('%') && !s.contains('+') {
        s
    } else {
        lossy_text(percent_decoded(encode_utf8(s)))
    }
}

fn hex_value_exec(b: u8) -> (r: Option<u8>)
    ensures
        match hex_value(b) {
            Some(v) => r == Some(v as u8),
            None => r is None,
        },
{
    if 48 <= b && b <= 57 {
        Some(b - 48)
    } else if 97 <= b && b <= 102 {
        Some(b - 87)
    } else if 65 <= b && b <= 70 {
        Some(b - 55)
    } else {
        None
    }
}

/// Decodes `%XX` escapes and `+` in the bytes `bytes`.
pub fn percent_decode_bytes(bytes: &[u8]) -> (out: Vec<u8>)
    ensures
        out@ == percent_decoded(bytes@),
{
    let mut out: Vec<u8> = Vec::new();
    let mut i: usize = 0;
    assert(bytes@.skip(0) == bytes@);
    while i < bytes.len()
        invariant
            i <= bytes.len(),
            percent_decoded(bytes@) == out@ + percent_decoded(bytes@.skip(i as int)),
        decreases bytes.len() - i,
    {
        let b = bytes[i];
        let ghost rest = bytes@.skip(i as int);
        if b == 37 && bytes.len() >= 3 && i < bytes.len() - 2 {
            let hi = hex_value_exec(bytes[i + 1]);
            let lo = hex_value_exec(bytes[i + 2]);
            if hi.is_some() && lo.is_some() {
                let h = hi.unwrap();
                let l = lo.unwrap();
                assert(rest[1] == bytes@[i + 1] && rest[2] == bytes@[i + 2]);
                assert(rest.skip(3) == bytes@.skip(i + 3));
                out.push(h * 16 + l);
                i = i + 3;
                continue;
            }
        }
        assert(rest.drop_first() == bytes@.skip(i + 1));
        if b == 43 {
            out.push(32);
        } else {
            out.push(b);
        }
        i = i + 1;
    }
    assert(bytes@.skip(i as int).len() == 0);
    assert(out@ + Seq::<u8>::empty() == out@);
    out
}

/// Decodes `%XX` escapes and `+` (space) in a query value; text without
/// either comes back unchanged, otherwise the decoded bytes are read as
/// UTF-8 with invalid sequences replaced.
pub fn percent_decode(s: &str) -> (r: String)
    ensures
        r@ == percent_decode_spec(s@),
{
    let cs = chars_of(s);
    if !contains_char(&cs, '%') && !contains_char(&cs, '+') {
        return string_of(&cs);
    }
    let decoded = percent_decode_bytes(s.as_bytes());
    string_from_utf8_lossy(decoded.as_slice())
}

/// `s` without any trailing `c` (as `str::trim_end_matches` with a `char`).
pub open spec fn trim_end_char(s: Seq<char>, c: char) -> Seq<char>
    decreases s.len(),
{
    if s.len() > 0 && s.last() == c {
        trim_end_char(s.drop_last(), c)
    } else {
        s
    }
}

/// The parameters of a query string, in order of appearance: each `&`-separated
/// piece that holds an `=` gives the key before its first `=` and the
/// percent-decoded value after it; pieces without `=` are skipped.
pub open spec fn query_pairs(pieces: Seq<Seq<char>>) -> Seq<(Seq<char>, Seq<char>)>
    decreases pieces.len(),
{
    if pieces.len() == 0 {
        Seq::empty()
    } else {
        let before = query_pairs(pieces.drop_last());
        let kv = pieces.last();
        match first_index_of(kv, '=') {
            Some(j) => before.push((kv.take(j), percent_decode_spec(kv.skip(j + 1)))),
            None => before,
        }
    }
}

/// The map of an association list in which a later pair overrides an
/// earlier one with the same key.
pub open spec fn pairs_map(pairs: Seq<(Seq<char>, Seq<char>)>) -> Map<Seq<char>, Seq<char>>
    decreases pairs.len(),
{
    if pairs.len() == 0 {
        Map::empty()
    } else {
        pairs_map(pairs.drop_last()).insert(pairs.last().0, pairs.last().1)
    }
}

/// `pairs` without the pairs whose key is `k`, in order.
pub open spec fn without_key(pairs: Seq<(Seq<char>, Seq<char>)>, k: Seq<char>) -> Seq<(Seq<char>, Seq<char>)>
    decreases pairs.len(),
{
    if pairs.len() == 0 {
        Seq::empty()
    } else if pairs.last().0 == k {
        without_key(pairs.drop_last(), k)
    } else {
        without_key(pairs.drop_last(), k).push(pairs.last())
    }
}

/// The pairs with one pair per key, as a map keeps them: each pair replaces
/// an earlier one with the same key (the replacing pair goes last).
pub open spec fn dedup_pairs(pairs: Seq<(Seq<char>, Seq<char>)>) -> Seq<(Seq<char>, Seq<char>)>
    decreases pairs.len(),
{
    if pairs.len() == 0 {
        Seq::empty()
    } else {
        without_key(dedup_pairs(pairs.drop_last()), pairs.last().0).push(pairs.last())
    }
}

/// `k` is the key of one of `pairs`.
pub open spec fn has_key(pairs: Seq<(Seq<char>, Seq<char>)>, k: Seq<char>) -> bool {
    exists|i: int| 0 <= i < pairs.len() && #[trigger] pairs[i].0 == k
}

/// No key occurs twice in `pairs`.
pub open spec fn keys_distinct(pairs: Seq<(Seq<char>, Seq<char>)>) -> bool {
    forall|i: int, j: int| 0 <= i < j < pairs.len() ==> #[trigger] pairs[i].0 != #[trigger] pairs[j].0
}

proof fn lemma_without_key(p: Seq<(Seq<char>, Seq<char>)>, k: Seq<char>)
    ensures
        !has_key(without_key(p, k), k),
        forall|x: Seq<char>| has_key(without_key(p, k), x) ==> has_key(p, x),
        keys_distinct(p) ==> keys_distinct(without_key(p, k)),
        pairs_map(without_key(p, k)) == pairs_map(p).remove(k),
    decreases p.len(),
{
    if p.len() > 0 {
        let q = p.drop_last();
        lemma_without_key(q, k);
        let w = without_key(q, k);
        assert forall|x: Seq<char>| has_key(w, x) implies has_key(p, x) by {
            assert(has_key(q, x));
            let i = choose|i: int| 0 <= i < q.len() && #[trigger] q[i].0 == x;
            assert(p[i] == q[i]);
        }
        if p.last().0 == k {
            assert(pairs_map(p).remove(k) =~= pairs_map(q).remove(k));
        } else {
            let t = w.push(p.last());
            assert forall|x: Seq<char>| has_key(t, x) implies has_key(p, x) by {
                let i = choose|i: int| 0 <= i < t.len() && #[trigger] t[i].0 == x;
                if i < w.len() {
                    assert(t[i] == w[i]);
                    assert(has_key(w, x));
                } else {
                    assert(p[p.len() - 1].0 == x);
                }
            }
            assert(!has_key(t, k)) by {
                if has_key(t, k) {
                    let i = choose|i: int| 0 <= i < t.len() && #[trigger] t[i].0 == k;
                    if i < w.len() {
                        assert(t[i] == w[i]);
                        assert(has_key(w, k));
                    }
                }
            }
            if keys_distinct(p) {
                assert(keys_distinct(q)) by {
                    assert forall|i: int, j: int| 0 <= i < j < q.len() implies #[trigger] q[i].0 != #[trigger] q[j].0 by {
                        assert(p[i] == q[i] && p[j] == q[j]);
                    }
                }
                assert forall|i: int, j: int| 0 <= i < j < t.len() implies #[trigger] t[i].0 != #[trigger] t[j].0 by {
                    if j < w.len() {
                        assert(t[i] == w[i] && t[j] == w[j]);
                    } else {
                        assert(t[i] == w[i]);
                        assert(has_key(w, w[i].0));
                        if w[i].0 == p.last().0 {
                            assert(has_key(q, p.last().0));
                            let m = choose|m: int| 0 <= m < q.len() && #[trigger] q[m].0 == p.last().0;
                            assert(p[m] == q[m]);
                            assert(p[m].0 == p[p.len() - 1].0);
                        }
                    }
                }
            }
            assert(t.drop_last() =~= w);
            assert(pairs_map(t) =~= pairs_map(p).remove(k));
        }
    }
}

/// Keeping one pair per key keeps the map of the pairs, and leaves no key
/// twice.
proof fn lemma_dedup_pairs(p: Seq<(Seq<char>, Seq<char>)>)
    ensures
        keys_distinct(dedup_pairs(p)),
        pairs_map(dedup_pairs(p)) == pairs_map(p),
    decreases p.len(),
{
    if p.len() > 0 {
        let q = p.drop_last();
        lemma_dedup_pairs(q);
        let k = p.last().0;
        lemma_without_key(dedup_pairs(q), k);
        let w = without_key(dedup_pairs(q), k);
        let t = w.push(p.last());
        assert forall|i: int, j: int| 0 <= i < j < t.len() implies #[trigger] t[i].0 != #[trigger] t[j].0 by {
            if j < w.len() {
                assert(t[i] == w[i] && t[j] == w[j]);
            } else {
                assert(t[i] == w[i]);
                if w[i].0 == k {
                    assert(has_key(w, k));
                }
            }
        }
        assert(t.drop_last() =~= w);
        assert(pairs_map(t) =~= pairs_map(p));
    }
}

/// Sets parameter `key` to `value`: an earlier pair with that key leaves,
/// the new pair goes last.
fn set_param(params: &mut Vec<(String, String)>, key: String, value: String)
    ensures
        pairs_view(final(params)@) == without_key(pairs_view(old(params)@), key@).push((key@, value@)),
{
    let k = chars_of(key.as_str());
    let mut kept: Vec<(String, String)> = Vec::new();
    let mut i: usize = 0;
    while i < params.len()
        invariant
            i <= params@.len(),
            k@ == key@,
            pairs_view(kept@) == without_key(pairs_view(params@).take(i as int), key@),
        decreases params.len() - i,
    {
        let pk = chars_of(params[i].0.as_str());
        proof {
            assert(pairs_view(params@).take(i + 1).drop_last() == pairs_view(params@).take(i as int));
            assert(pairs_view(params@).take(i + 1).last() == (params@[i as int].0@, params@[i as int].1@));
        }
        if !crate::text::chars_eq(&pk, &k) {
            let ghost before = kept@;
            kept.push((params[i].0.clone(), params[i].1.clone()));
            assert(pairs_view(kept@) =~= pairs_view(before).push((params@[i as int].0@, params@[i as int].1@)));
        }
        i = i + 1;
    }
    assert(pairs_view(params@).take(params@.len() as int) == pairs_view(params@));
    let ghost before = kept@;
    kept.push((key, value));
    assert(pairs_view(kept@) =~= pairs_view(before).push((k@, value@)));
    *params = kept;
}

/// A parsed `scheme://path?query` URL.
pub struct Query {
    /// The path, without trailing `/`.
    pub path: String,
    /// The query parameters, one pair per key; for a repeated key the last
    /// one counts.
    pub params: Vec<(String, String)>,
}

impl Query {
    /// The parameters as a map from key to value.
    pub open spec fn param_map(&self) -> Map<Seq<char>, Seq<char>> {
        pairs_map(pairs_view(self.params@))
    }

    /// The value of parameter `key`, as a map lookup would give it.
    pub fn get(&self, key: &str) -> (r: Option<String>)
        ensures
            match r {
                Some(v) => self.param_map().contains_key(key@) && v@ == self.param_map()[key@],
                None => !self.param_map().contains_key(key@),
            },
    {
        let k = chars_of(key);
        let mut i: usize = self.params.len();
        assert(self.params@.take(i as int) == self.params@);
        while i > 0
            invariant
                i <= self.params@.len(),
                k@ == key@,
                self.param_map().contains_key(key@) == pairs_map(
                    pairs_view(self.params@.take(i as int)),
                ).contains_key(key@),
                self.param_map().contains_key(key@) ==> self.param_map()[key@] == pairs_map(
                    pairs_view(self.params@.take(i as int)),
                )[key@],
            decreases i,
        {
            proof {
                lemma_pairs_map_take(self.params@, i as int);
            }
            let pk = chars_of(self.params[i - 1].0.as_str());
            if chars_eq(&pk, &k) {
                let v = self.params[i - 1].1.clone();
                return Some(v);
            }
            i = i - 1;
        }
        assert(pairs_view(self.params@.take(0)) =~= Seq::empty());
        None
    }
}

/// The map of the first `i` pairs is that of the first `i - 1` with the
/// `i`-th inserted.
proof fn lemma_pairs_map_take(v: Seq<(String, String)>, i: int)
    requires
        0 < i <= v.len(),
    ensures
        pairs_map(pairs_view(v.take(i))) == pairs_map(pairs_view(v.take(i - 1))).insert(
            v[i - 1].0@,
            v[i - 1].1@,
        ),
{
    let t = pairs_view(v.take(i));
    assert(t.drop_last() == pairs_view(v.take(i - 1)));
    assert(t.last() == (v[i - 1].0@, v[i - 1].1@));
}

/// Parses `scheme://path?query`. `None` when `url` does not start with
/// `scheme://`. The path loses its trailing `/`s; the query is split at `&`
/// into `key=value` pairs whose values are percent-decoded.
pub fn parse_url(url: &str, scheme: &str) -> (r: Option<Query>)
    ensures
        ({
            let prefix = scheme@ + "://"@;
            match r {
                None => !has_prefix(url@, prefix),
                Some(q) => has_prefix(url@, prefix) && {
                    let rest = url@.skip(prefix.len() as int);
                    let (path, qs) = match first_index_of(rest, '?') {
                        Some(j) => (rest.take(j), rest.skip(j + 1)),
                        None => (rest, Seq::<char>::empty()),
                    };
                    &&& q.path@ == trim_end_char(path, '/')
                    &&& pairs_view(q.params@) == dedup_pairs(query_pairs(split_on(qs, '&')))
                    &&& keys_distinct(pairs_view(q.params@))
                    &&& q.param_map() == pairs_map(query_pairs(split_on(qs, '&')))
                }
            }
        }),
{
    let mut prefix = chars_of(scheme);
    push_str(&mut prefix, "://");
    let u = chars_of(url);
    if !starts_with(&u, &prefix) {
        return None;
    }
    let rest = slice_chars(&u, prefix.len(), u.len());
    assert(rest@ == url@.skip(prefix@.len() as int));
    let (path, qs) = match find_char(&rest, '?') {
        Some(j) => (slice_chars(&rest, 0, j), slice_chars(&rest, j + 1, rest.len())),
        None => (rest, Vec::new()),
    };
    // The path without trailing '/'.
    let mut end = path.len();
    assert(path@.take(end as int) == path@);
    while end > 0 && path[end - 1] == '/'
        invariant
            end <= path.len(),
            trim_end_char(path@, '/') == trim_end_char(path@.take(end as int), '/'),
        decreases end,
    {
        assert(path@.take(end as int).drop_last() == path@.take(end - 1));
        end = end - 1;
    }
    let trimmed = slice_chars(&path, 0, end);
    assert(trimmed@ == path@.take(end as int));
    let pieces = split_char(&qs, '&');
    let mut params: Vec<(String, String)> = Vec::new();
    let mut i: usize = 0;
    while i < pieces.len()
        invariant
            i <= pieces@.len(),
            pieces@.len() == split_on(qs@, '&').len(),
            forall|k: int| 0 <= k < pieces@.len() ==> #[trigger] pieces@[k]@ == split_on(qs@, '&')[k],
            pairs_view(params@) == dedup_pairs(query_pairs(split_on(qs@, '&').take(i as int))),
        decreases pieces.len() - i,
    {
        let kv = &pieces[i];
        proof {
            let ps = split_on(qs@, '&');
            assert(ps.take(i + 1).drop_last() == ps.take(i as int));
            assert(ps.take(i + 1).last() == kv@);
        }
        match find_char(kv, '=') {
            Some(j) => {
                let key = slice_chars(kv, 0, j);
                let val = slice_chars(kv, j + 1, kv.len());
                let val_s = string_of(&val);
                let decoded = percent_decode(val_s.as_str());
                let key_s = string_of(&key);
                proof {
                    let qp = query_pairs(split_on(qs@, '&').take(i as int));
                    assert(qp.push((key@, decoded@)).drop_last() =~= qp);
                }
                set_param(&mut params, key_s, decoded);
            },
            None => {},
        }
        i = i + 1;
    }
    assert(split_on(qs@, '&').take(pieces@.len() as int) == split_on(qs@, '&'));
    proof {
        lemma_dedup_pairs(query_pairs(split_on(qs@, '&')));
    }
    Some(Query { path: string_of(&trimmed), params })
}

/// Escaping every UTF-8 byte of a text as `%XX` and decoding it gives the
/// text back.
pub proof fn law_percent_decode_round_trip(t: Seq<char>)
    ensures
        percent_decode_spec(ascii_text(percent_encoded(encode_utf8(t)))) == t,
{
    let b = encode_utf8(t);
    let e = percent_encoded(b);
    lemma_percent_encoded_ascii(b);
    lemma_ascii_encode(e);
    law_percent_round_trip(b);
    vstd::utf8::encode_utf8_valid_utf8(t);
    vstd::utf8::encode_utf8_decode_utf8(t);
    if t.len() == 0 {
        assert(b.len() == 0);
        assert(ascii_text(e) =~= t);
    } else {
        assert(b.len() > 0) by {
            vstd::utf8::encode_utf8_decode_utf8(t);
        }
        assert(ascii_text(e)[0] == '%');
        assert(ascii_text(e).contains('%'));
    }
}

proof fn lemma_ascii_text_decodes(x: Seq<u8>)
    requires
        forall|i: int| 0 <= i < x.len() ==> #[trigger] x[i] < 128,
    ensures
        lossy_text(x) == ascii_text(x),
{
    lemma_ascii_encode(x);
    vstd::utf8::encode_utf8_valid_utf8(ascii_text(x));
    vstd::utf8::encode_utf8_decode_utf8(ascii_text(x));
}

/// What an escape decodes to is not decoded again: an escaped ASCII byte
/// followed by ASCII text holding no `%` or `+` decodes to that byte
/// followed by the text as it is (so `%2520` gives `%20`, and `%2B` gives
/// `+`).
pub proof fn law_escape_not_decoded_twice(b: u8, rest: Seq<u8>)
    requires
        b < 128,
        forall|i: int| 0 <= i < rest.len() ==> #[trigger] rest[i] < 128 && rest[i] != 37u8 && rest[i] != 43u8,
    ensures
        percent_decode_spec(ascii_text(percent_encoded(seq![b]) + rest)) == ascii_text(seq![b] + rest),
{
    let e = percent_encoded(seq![b]) + rest;
    lemma_percent_encoded_ascii(seq![b]);
    assert(percent_encoded(seq![b]) =~= seq![37u8, hex_digit_byte(b as nat / 16), hex_digit_byte(b as nat % 16)]) by {
        assert(seq![b].drop_first() =~= Seq::<u8>::empty());
    }
    assert forall|i: int| 0 <= i < e.len() implies #[trigger] e[i] < 128 by {
        if i >= 3 {
            assert(e[i] == rest[i - 3]);
        }
    }
    lemma_ascii_encode(e);
    let hi = hex_digit_byte(b as nat / 16);
    let lo = hex_digit_byte(b as nat % 16);
    assert(hex_value(hi) == Some(b as nat / 16));
    assert(hex_value(lo) == Some(b as nat % 16));
    assert(e =~= seq![37u8, hi, lo] + rest);
    law_escape_decoded_once(hi, lo, rest);
    assert(!rest.contains(37u8) && !rest.contains(43u8));
    law_plain_bytes_unchanged(rest);
    assert((b as nat / 16) * 16 + b as nat % 16 == b) by (nonlinear_arith);
    let d = seq![b] + rest;
    assert(percent_decoded(e) == d);
    assert forall|i: int| 0 <= i < d.len() implies #[trigger] d[i] < 128 by {
        if i >= 1 {
            assert(d[i] == rest[i - 1]);
        }
    }
    lemma_ascii_text_decodes(d);
    assert(ascii_text(e)[0] == '%');
    assert(ascii_text(e).contains('%'));
}

/// The uppercase form of an ASCII letter hex digit `a`-`f`; any other byte
/// as it is.
pub open spec fn upper_hex(b: u8) -> u8 {
    if 97 <= b <= 102 {
        (b - 32) as u8
    } else {
        b
    }
}

/// Hex digits read as hexadecimal, in either case: the uppercase digit
/// written for each value 0-15 reads back as that value, a lowercase
/// letter reads as its uppercase form, and no digit reads as 16 or more.
/// So an escape decodes to the same byte whatever the case of its digits
/// (`%2f` and `%2F` both give `/`). The digits of `0123456789abcdef` and
/// of `0123456789ABCDEF` read as their places, 0 to 15.
pub proof fn law_hex_escapes_ignore_case(b: u8, d: nat, hi: u8, lo: u8, rest: Seq<u8>)
    ensures
        d < 16 ==> hex_value(("0123456789abcdef"@[d as int] as u32) as u8) == Some(d),
        d < 16 ==> hex_value(("0123456789ABCDEF"@[d as int] as u32) as u8) == Some(d),
        d < 16 ==> hex_value(hex_digit_byte(d)) == Some(d),
        hex_value(b) == hex_value(upper_hex(b)),
        hex_value(b) matches Some(v) ==> v < 16,
        hex_value(hi) is Some && hex_value(lo) is Some ==> percent_decoded(seq![37u8, hi, lo] + rest)
            == percent_decoded(seq![37u8, upper_hex(hi), upper_hex(lo)] + rest),
{
    reveal_strlit("0123456789abcdef");
    reveal_strlit("0123456789ABCDEF");
    if d < 16 {
        let lower = "0123456789abcdef"@;
        let upper = "0123456789ABCDEF"@;
        assert(lower =~= seq!['0', '1', '2', '3', '4', '5', '6', '7', '8', '9', 'a', 'b', 'c', 'd', 'e', 'f']);
        assert(upper =~= seq!['0', '1', '2', '3', '4', '5', '6', '7', '8', '9', 'A', 'B', 'C', 'D', 'E', 'F']);
        if d < 10 {
            assert(lower[d as int] as u32 == 48 + d);
            assert(upper[d as int] as u32 == 48 + d);
        } else {
            assert(lower[d as int] as u32 == 87 + d);
            assert(upper[d as int] as u32 == 55 + d);
        }
    }
    let e1 = seq![37u8, hi, lo] + rest;
    let e2 = seq![37u8, upper_hex(hi), upper_hex(lo)] + rest;
    assert(e1.skip(3) =~= rest);
    assert(e2.skip(3) =~= rest);
    assert(e1.drop_first() =~= seq![hi, lo] + rest);
    assert(e2.drop_first() =~= seq![upper_hex(hi), upper_hex(lo)] + rest);
    assert(hex_value(hi) == hex_value(upper_hex(hi)));
    assert(hex_value(lo) == hex_value(upper_hex(lo)));
}

} // verus!
