//! Character-level text utilities shared by the OBJ reader: splitting a
//! string on a separator, collecting the non-empty tokens of a line,
//! comparing strings, and reading an unsigned decimal number.

use vstd::prelude::*;

verus! {

/// True of an ASCII decimal digit.
pub open spec fn is_dec_digit(c: char) -> bool {
    '0' <= c && c <= '9'
}

/// The predicate "this character equals `sep`", named so that every use
/// denotes the same function value.
pub open spec fn sep_pred(sep: char) -> spec_fn(char) -> bool {
    |c: char| c == sep
}

/// Position of the first character satisfying `pred`, if any.
pub open spec fn find_first(s: Seq<char>, pred: spec_fn(char) -> bool) -> Option<int>
    decreases s.len(),
{
    if s.len() == 0 {
        None
    } else if pred(s[0]) {
        Some(0int)
    } else {
        match find_first(s.drop_first(), pred) {
            None => None,
            Some(i) => Some(i + 1),
        }
    }
}

/// What `find_first` returns: the first matching position, in range,
/// with no match before it; or `None` when nothing matches.
pub proof fn lemma_find_first_props(s: Seq<char>, pred: spec_fn(char) -> bool)
    ensures
        match find_first(s, pred) {
            None => forall|k: int| 0 <= k < s.len() ==> !pred(s[k]),
            Some(i) => 0 <= i < s.len() && pred(s[i]) && forall|k: int| 0 <= k < i ==> !pred(s[k]),
        },
    decreases s.len(),
{
    if s.len() > 0 && !pred(s[0]) {
        lemma_find_first_props(s.drop_first(), pred);
        match find_first(s.drop_first(), pred) {
            None => {
                assert forall|k: int| 0 <= k < s.len() implies !pred(s[k]) by {
                    if k > 0 {
                        assert(!pred(s.drop_first()[k - 1]));
                    }
                }
            },
            Some(i) => {
                assert(pred(s.drop_first()[i]));
                assert forall|k: int| 0 <= k < i + 1 implies !pred(s[k]) by {
                    if k > 0 {
                        assert(!pred(s.drop_first()[k - 1]));
                    }
                }
            },
        }
    }
}

/// `find_first` answers the first matching position.
pub proof fn lemma_find_first_is_at(s: Seq<char>, pred: spec_fn(char) -> bool, j: int)
    requires
        0 <= j < s.len(),
        pred(s[j]),
        forall|k: int| 0 <= k < j ==> !pred(s[k]),
    ensures
        find_first(s, pred) == Some(j),
{
    lemma_find_first_props(s, pred);
    match find_first(s, pred) {
        None => {
            assert(pred(s[j]));
        },
        Some(i) => {
            if i < j {
                assert(!pred(s[i]));
            }
            if i > j {
                assert(!pred(s[j]));
            }
        },
    }
}

/// `find_first` answers `None` where nothing matches.
pub proof fn lemma_find_first_is_none(s: Seq<char>, pred: spec_fn(char) -> bool)
    requires
        forall|k: int| 0 <= k < s.len() ==> !pred(s[k]),
    ensures
        find_first(s, pred) == None::<int>,
{
    lemma_find_first_props(s, pred);
    match find_first(s, pred) {
        None => {},
        Some(i) => {
            assert(pred(s[i]));
        },
    }
}

/// The pieces of `s` split on every occurrence of `sep`, in order; empty
/// pieces are kept, so the result always has one piece more than `s` has
/// separators.
pub open spec fn split_char(s: Seq<char>, sep: char) -> Seq<Seq<char>>
    decreases s.len(),
    via split_char_decreases
{
    match find_first(s, sep_pred(sep)) {
        None => seq![s],
        Some(i) => seq![s.take(i)] + split_char(s.skip(i + 1), sep),
    }
}

#[via_fn]
proof fn split_char_decreases(s: Seq<char>, sep: char) {
    lemma_find_first_props(s, sep_pred(sep));
}

/// The non-empty tokens of a line split on spaces.
pub open spec fn tokens_of(line: Seq<char>) -> Seq<Seq<char>> {
    split_char(line, ' ').filter(|t: Seq<char>| t.len() != 0)
}

/// Splits `s` on every occurrence of `sep`, keeping empty pieces,
/// exactly as `split_char` describes.
pub fn split_on(s: &str, sep: char) -> (r: Vec<String>)
    ensures
        r@.map_values(|p: String| p@) == split_char(s@, sep),
{
    let n = s.unicode_len();
    let mut pieces: Vec<String> = Vec::new();
    let mut start: usize = 0;
    let mut i: usize = 0;
    proof {
        assert(s@.skip(0) =~= s@);
        assert(pieces@.map_values(|p: String| p@) + split_char(s@, sep) =~= split_char(s@, sep));
    }
    while i < n
        invariant
            start <= i <= n,
            n == s@.len(),
            forall|k: int| start <= k < i ==> s@[k] != sep,
            split_char(s@, sep) == pieces@.map_values(|p: String| p@) + split_char(
                s@.skip(start as int),
                sep,
            ),
        decreases n - i,
    {
        if s.get_char(i) == sep {
            let piece = s.substring_char(start, i).to_owned();
            proof {
                lemma_split_cut(s@, sep, start as int, i as int);
                assert(pieces@.push(piece).map_values(|p: String| p@) =~= pieces@.map_values(
                    |p: String| p@,
                ).push(piece@));
                assert(s@.skip(start as int).take(i - start) =~= s@.subrange(
                    start as int,
                    i as int,
                ));
                assert(pieces@.map_values(|p: String| p@).push(piece@) + split_char(
                    s@.skip(i + 1),
                    sep,
                ) =~= pieces@.map_values(|p: String| p@) + (seq![s@.skip(start as int).take(
                    i - start,
                )] + split_char(s@.skip(i + 1), sep)));
            }
            pieces.push(piece);
            start = i + 1;
        }
        i = i + 1;
    }
    let last = s.substring_char(start, n).to_owned();
    proof {
        lemma_split_rest(s@, sep, start as int);
        assert(s@.skip(start as int) =~= s@.subrange(start as int, n as int));
        assert(pieces@.push(last).map_values(|p: String| p@) =~= pieces@.map_values(
            |p: String| p@,
        ).push(last@));
        assert(pieces@.map_values(|p: String| p@).push(last@) =~= pieces@.map_values(
            |p: String| p@,
        ) + seq![s@.skip(start as int)]);
    }
    pieces.push(last);
    pieces
}

/// When the next separator of `s` past `start` stands at `i`, the split of
/// the tail at `start` begins with the piece `s[start..i]`.
proof fn lemma_split_cut(s: Seq<char>, sep: char, start: int, i: int)
    requires
        0 <= start <= i < s.len(),
        s[i] == sep,
        forall|k: int| start <= k < i ==> s[k] != sep,
    ensures
        split_char(s.skip(start), sep) == seq![s.skip(start).take(i - start)] + split_char(
            s.skip(i + 1),
            sep,
        ),
{
    let t = s.skip(start);
    assert forall|k: int| 0 <= k < t.len() implies t[k] == s[start + k] by {}
    lemma_find_first_props(t, sep_pred(sep));
    match find_first(t, sep_pred(sep)) {
        None => {
            assert(sep_pred(sep)(t[i - start]));
        },
        Some(j) => {
            if j < i - start {
                assert(s[start + j] != sep);
                assert(sep_pred(sep)(t[j]));
            }
            if j > i - start {
                assert(!sep_pred(sep)(t[i - start]));
            }
            assert(j == i - start);
            assert(t.skip(j + 1) =~= s.skip(i + 1));
        },
    }
}

/// When no separator stands in `s` past `start`, the split of the tail is
/// that single piece.
proof fn lemma_split_rest(s: Seq<char>, sep: char, start: int)
    requires
        0 <= start <= s.len(),
        forall|k: int| start <= k < s.len() ==> s[k] != sep,
    ensures
        split_char(s.skip(start), sep) == seq![s.skip(start)],
{
    let t = s.skip(start);
    assert forall|k: int| 0 <= k < t.len() implies t[k] == s[start + k] by {}
    lemma_find_first_props(t, sep_pred(sep));
    match find_first(t, sep_pred(sep)) {
        None => {},
        Some(j) => {
            assert(sep_pred(sep)(t[j]));
            assert(s[start + j] != sep);
        },
    }
}

/// The non-empty tokens of `line` split on spaces, exactly as `tokens_of`
/// describes.
pub fn tokens(line: &str) -> (r: Vec<String>)
    ensures
        r@.map_values(|p: String| p@) == tokens_of(line@),
{
    let pieces = split_on(line, ' ');
    let mut out: Vec<String> = Vec::new();
    let mut i: usize = 0;
    while i < pieces.len()
        invariant
            i <= pieces@.len(),
            out@.map_values(|p: String| p@) == pieces@.map_values(|p: String| p@).take(
                i as int,
            ).filter(|t: Seq<char>| t.len() != 0),
        decreases pieces@.len() - i,
    {
        let ghost pv = pieces@.map_values(|p: String| p@);
        proof {
            assert(pv.take(i + 1).drop_last() =~= pv.take(i as int));
            assert(pv.take(i + 1).last() == pieces@[i as int]@);
            reveal_with_fuel(Seq::filter, 2);
        }
        if pieces[i].unicode_len() != 0 {
            let piece = pieces[i].clone();
            proof {
                assert(out@.push(piece).map_values(|p: String| p@) =~= out@.map_values(
                    |p: String| p@,
                ).push(piece@));
            }
            out.push(piece);
        }
        i = i + 1;
    }
    proof {
        assert(pieces@.map_values(|p: String| p@).take(pieces@.len() as int) =~= pieces@.map_values(
            |p: String| p@,
        ));
    }
    out
}

/// The message returned when a token cannot be read as a value of the
/// named type.
pub open spec fn msg_could_not_parse(tok: Seq<char>, ty: Seq<char>) -> Seq<char> {
    "Could not parse `"@ + tok + "` into "@ + ty
}

/// Builds the `msg_could_not_parse` message.
pub fn could_not_parse_msg(tok: &str, ty: &str) -> (r: String)
    ensures
        r@ == msg_could_not_parse(tok@, ty@),
{
    let mut m = "Could not parse `".to_owned();
    m.append(tok);
    m.append("` into ");
    m.append(ty);
    proof {
        assert(m@ =~= msg_could_not_parse(tok@, ty@));
    }
    m
}

/// The digit part of an unsigned decimal token: everything after one
/// optional leading plus sign.
pub open spec fn usize_digits(s: Seq<char>) -> Seq<char> {
    if s.len() > 0 && s[0] == '+' {
        s.drop_first()
    } else {
        s
    }
}

/// True when every character of `s` is a decimal digit.
pub open spec fn all_dec_digits(s: Seq<char>) -> bool {
    forall|k: int| 0 <= k < s.len() ==> is_dec_digit(s[k])
}

/// The number a sequence of decimal digits denotes.
pub open spec fn dec_digits_value(s: Seq<char>) -> nat
    decreases s.len(),
{
    if s.len() == 0 {
        0
    } else {
        dec_digits_value(s.drop_last()) * 10 + ((s.last() as int - 48) as nat)
    }
}

/// True of the tokens that `parse` accepts: an optional plus sign, then at
/// least one decimal digit, denoting a number that fits in `usize`.
pub open spec fn is_usize_token(s: Seq<char>) -> bool {
    let d = usize_digits(s);
    &&& d.len() > 0
    &&& all_dec_digits(d)
    &&& dec_digits_value(d) <= usize::MAX
}

/// The number an accepted token denotes.
pub open spec fn usize_token_value(s: Seq<char>) -> nat {
    dec_digits_value(usize_digits(s))
}

/// Reading one more digit multiplies the value by ten and adds that digit.
proof fn lemma_dec_digits_value_step(s: Seq<char>, j: int)
    requires
        0 <= j < s.len(),
    ensures
        dec_digits_value(s.take(j + 1)) == dec_digits_value(s.take(j)) * 10 + (
        (s[j] as int - 48) as nat),
{
    assert(s.take(j + 1).drop_last() =~= s.take(j));
    assert(s.take(j + 1).last() == s[j]);
}

/// The value of a digit string is no less than the value of any prefix.
proof fn lemma_dec_digits_value_prefix(s: Seq<char>, j: int)
    requires
        0 <= j <= s.len(),
    ensures
        dec_digits_value(s.take(j)) <= dec_digits_value(s),
    decreases s.len() - j,
{
    if j == s.len() {
        assert(s.take(j) =~= s);
    } else {
        lemma_dec_digits_value_step(s, j);
        lemma_dec_digits_value_prefix(s, j + 1);
    }
}

/// Reads an unsigned decimal number, accepting exactly the tokens that
/// `is_usize_token` describes and returning the number they denote;
/// any other token is answered with the `msg_could_not_parse` message.
pub fn parse(string: &str) -> (r: Result<usize, String>)
    ensures
        match r {
            Ok(v) => is_usize_token(string@) && v == usize_token_value(string@),
            Err(e) => !is_usize_token(string@) && e@ == msg_could_not_parse(string@, "usize"@),
        },
{
    let n = string.unicode_len();
    let mut start: usize = 0;
    if n > 0 && string.get_char(0) == '+' {
        start = 1;
    }
    let ghost d = usize_digits(string@);
    proof {
        assert(d =~= string@.skip(start as int));
    }
    if start == n {
        return Err(could_not_parse_msg(string, "usize"));
    }
    let mut acc: usize = 0;
    let mut i: usize = start;
    proof {
        assert(d.take(0) =~= Seq::<char>::empty());
    }
    while i < n
        invariant
            start <= i <= n,
            n == string@.len(),
            d == string@.skip(start as int),
            d == usize_digits(string@),
            forall|k: int| 0 <= k < i - start ==> is_dec_digit(d[k]),
            acc == dec_digits_value(d.take(i - start)),
        decreases n - i,
    {
        let c = string.get_char(i);
        let cv = c as u32;
        if cv < 48 || cv > 57 {
            assert(!is_dec_digit(d[i - start]));
            return Err(could_not_parse_msg(string, "usize"));
        }
        proof {
            lemma_dec_digits_value_step(d, i - start);
        }
        let widened = match acc.checked_mul(10) {
            Some(a) => a,
            None => {
                proof {
                    lemma_dec_digits_value_prefix(d, i - start + 1);
                }
                return Err(could_not_parse_msg(string, "usize"));
            },
        };
        acc = match widened.checked_add((cv - 48) as usize) {
            Some(a) => a,
            None => {
                proof {
                    lemma_dec_digits_value_prefix(d, i - start + 1);
                }
                return Err(could_not_parse_msg(string, "usize"));
            },
        };
        i = i + 1;
    }
    proof {
        assert(d.take(n - start) =~= d);
    }
    Ok(acc)
}

/// Character-for-character string equality, decided without assuming
/// anything of the standard comparison operators.
pub fn str_eq(a: &str, b: &str) -> (r: bool)
    ensures
        r == (a@ == b@),
{
    let na = a.unicode_len();
    let nb = b.unicode_len();
    if na != nb {
        return false;
    }
    let mut i: usize = 0;
    while i < na
        invariant
            i <= na,
            na == a@.len(),
            nb == b@.len(),
            na == nb,
            forall|k: int| 0 <= k < i ==> a@[k] == b@[k],
        decreases na - i,
    {
        if a.get_char(i) != b.get_char(i) {
            return false;
        }
        i = i + 1;
    }
    proof {
        assert(a@ =~= b@);
    }
    true
}

} // verus!
