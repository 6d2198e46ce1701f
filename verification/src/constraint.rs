//! The constraint-error mapper: parses a storage-engine uniqueness-violation
//! identifier into a field-addressable error message, without leaking the
//! raw identifier to the API consumer. The identifier is expected to encode
//! the implicated logical field names between its first and last delimiter
//! marker, joined by a field-separator token.

use vstd::prelude::*;
use vstd::string::StrSliceExecFns;

use crate::text::push_char;

verus! {

/// The delimiter marker around the encoded field list.
pub open spec fn marker() -> char {
    '_'
}

/// The index of the first delimiter marker, if any.
pub open spec fn first_marker(s: Seq<char>) -> Option<int>
    decreases s.len(),
{
    if s.len() == 0 {
        None
    } else if s[0] == marker() {
        Some(0)
    } else {
        match first_marker(s.drop_first()) {
            Some(i) => Some(i + 1),
            None => None,
        }
    }
}

/// The index of the last delimiter marker, if any.
pub open spec fn last_marker(s: Seq<char>) -> Option<int>
    decreases s.len(),
{
    if s.len() == 0 {
        None
    } else if s.last() == marker() {
        Some(s.len() - 1)
    } else {
        last_marker(s.drop_last())
    }
}

/// `first_marker` names the least marker position, or there is none.
pub proof fn lemma_first_marker_spec(s: Seq<char>)
    ensures
        match first_marker(s) {
            Some(i) => 0 <= i < s.len() && s[i] == marker() && forall|j: int|
                0 <= j < i ==> s[j] != marker(),
            None => forall|j: int| 0 <= j < s.len() ==> s[j] != marker(),
        },
    decreases s.len(),
{
    if s.len() > 0 && s[0] != marker() {
        lemma_first_marker_spec(s.drop_first());
        match first_marker(s.drop_first()) {
            Some(i) => {
                assert(s.drop_first()[i] == s[i + 1]);
                assert forall|j: int| 0 <= j < i + 1 implies s[j] != marker() by {
                    if j > 0 {
                        assert(s.drop_first()[j - 1] == s[j]);
                        assert(s.drop_first()[j - 1] != marker());
                    }
                }
            },
            None => {
                assert forall|j: int| 0 <= j < s.len() implies s[j] != marker() by {
                    if j > 0 {
                        assert(s.drop_first()[j - 1] == s[j]);
                        assert(s.drop_first()[j - 1] != marker());
                    }
                }
            },
        }
    }
}

/// `last_marker` names the greatest marker position, or there is none.
pub proof fn lemma_last_marker_spec(s: Seq<char>)
    ensures
        match last_marker(s) {
            Some(i) => 0 <= i < s.len() && s[i] == marker() && forall|j: int|
                i < j < s.len() ==> s[j] != marker(),
            None => forall|j: int| 0 <= j < s.len() ==> s[j] != marker(),
        },
    decreases s.len(),
{
    if s.len() > 0 && s.last() != marker() {
        lemma_last_marker_spec(s.drop_last());
        match last_marker(s.drop_last()) {
            Some(i) => {
                assert(s.drop_last()[i] == s[i]);
                assert forall|j: int| i < j < s.len() implies s[j] != marker() by {
                    if j < s.len() - 1 {
                        assert(s.drop_last()[j] == s[j]);
                        assert(s.drop_last()[j] != marker());
                    }
                }
            },
            None => {
                assert forall|j: int| 0 <= j < s.len() implies s[j] != marker() by {
                    if j < s.len() - 1 {
                        assert(s.drop_last()[j] == s[j]);
                        assert(s.drop_last()[j] != marker());
                    }
                }
            },
        }
    }
}

/// The characters of a string, in order.
pub fn str_chars(s: &str) -> (r: Vec<char>)
    ensures
        r@ == s@,
{
    let n = s.unicode_len();
    let mut r: Vec<char> = Vec::new();
    let mut i: usize = 0;
    while i < n
        invariant
            i <= n,
            n == s@.len(),
            r@ == s@.take(i as int),
        decreases n - i,
    {
        r.push(s.get_char(i));
        assert(r@ =~= s@.take(i as int + 1));
        i = i + 1;
    }
    assert(r@ =~= s@);
    r
}

/// A `String` holding the given character range.
fn chars_to_string(v: &Vec<char>, from: usize, to: usize) -> (r: String)
    requires
        from <= to <= v@.len(),
    ensures
        r@ == v@.subrange(from as int, to as int),
{
    let mut r = String::new();
    let mut i: usize = from;
    while i < to
        invariant
            from <= i <= to <= v@.len(),
            r@ == v@.subrange(from as int, i as int),
        decreases to - i,
    {
        push_char(&mut r, v[i]);
        assert(r@ =~= v@.subrange(from as int, i as int + 1));
        i = i + 1;
    }
    r
}

/// The position of the first delimiter marker of `v`, as `first_marker`
/// names it.
fn find_first_marker(v: &Vec<char>) -> (r: Option<usize>)
    ensures
        match r {
            Some(i) => first_marker(v@) == Some(i as int),
            None => first_marker(v@) is None,
        },
{
    let n = v.len();
    let mut i: usize = 0;
    while i < n
        invariant
            i <= n,
            n == v@.len(),
            forall|j: int| 0 <= j < i ==> v@[j] != marker(),
        decreases n - i,
    {
        if v[i] == '_' {
            proof {
                lemma_first_marker_spec(v@);
                match first_marker(v@) {
                    Some(k) => {
                        if k < i as int {
                            assert(v@[k] == marker());
                        }
                        if k > i as int {
                            assert(v@[i as int] != marker());
                        }
                    },
                    None => {
                        assert(v@[i as int] != marker());
                    },
                }
            }
            return Some(i);
        }
        i = i + 1;
    }
    proof {
        lemma_first_marker_spec(v@);
    }
    None
}

/// The position of the last delimiter marker of `v`, as `last_marker`
/// names it.
fn find_last_marker(v: &Vec<char>) -> (r: Option<usize>)
    ensures
        match r {
            Some(i) => last_marker(v@) == Some(i as int),
            None => last_marker(v@) is None,
        },
{
    let n = v.len();
    let mut i: usize = n;
    while i > 0
        invariant
            i <= n,
            n == v@.len(),
            forall|j: int| i <= j < n ==> v@[j] != marker(),
        decreases i,
    {
        i = i - 1;
        if v[i] == '_' {
            proof {
                lemma_last_marker_spec(v@);
                match last_marker(v@) {
                    Some(k) => {
                        if k > i as int {
                            assert(v@[k] == marker());
                        }
                        if k < i as int {
                            assert(v@[i as int] != marker());
                        }
                    },
                    None => {
                        assert(v@[i as int] != marker());
                    },
                }
            }
            return Some(i);
        }
    }
    proof {
        lemma_last_marker_spec(v@);
    }
    None
}

/// Whether the field-separator token stands at position `i`.
pub open spec fn sep_at(s: Seq<char>, i: int) -> bool {
    0 <= i && i + 3 <= s.len() && s[i] == '$' && s[i + 1] == '$' && s[i + 2] == '$'
}

/// The position of the leftmost field-separator token, if any.
pub open spec fn find_sep(s: Seq<char>) -> Option<int>
    decreases s.len(),
{
    if s.len() < 3 {
        None
    } else if s[0] == '$' && s[1] == '$' && s[2] == '$' {
        Some(0)
    } else {
        match find_sep(s.drop_first()) {
            Some(i) => Some(i + 1),
            None => None,
        }
    }
}

/// `find_sep` names the leftmost separator position, or there is none.
pub proof fn lemma_find_sep_spec(s: Seq<char>)
    ensures
        match find_sep(s) {
            Some(i) => sep_at(s, i) && forall|j: int| 0 <= j < i ==> !sep_at(s, j),
            None => forall|j: int| !sep_at(s, j),
        },
    decreases s.len(),
{
    if s.len() >= 3 && !(s[0] == '$' && s[1] == '$' && s[2] == '$') {
        lemma_find_sep_spec(s.drop_first());
        assert forall|k: int| 0 <= k < s.len() - 1 implies #[trigger] s.drop_first()[k] == s[k
            + 1] by {}
        match find_sep(s.drop_first()) {
            Some(i) => {
                assert(sep_at(s.drop_first(), i));
                assert(sep_at(s, i + 1));
                assert forall|j: int| 0 <= j < i + 1 implies !sep_at(s, j) by {
                    if j > 0 && sep_at(s, j) {
                        assert(sep_at(s.drop_first(), j - 1));
                    }
                }
            },
            None => {
                assert forall|j: int| !sep_at(s, j) by {
                    if j > 0 && sep_at(s, j) {
                        assert(sep_at(s.drop_first(), j - 1));
                    }
                }
            },
        }
    }
}

/// The field names, in order: the text split on the separator token, by
/// leftmost non-overlapping occurrences. Always at least one piece.
pub open spec fn split_fields(s: Seq<char>) -> Seq<Seq<char>>
    decreases s.len(),
    via split_fields_decreases
{
    match find_sep(s) {
        Some(i) => seq![s.take(i)] + split_fields(s.skip(i + 3)),
        None => seq![s],
    }
}

#[via_fn]
proof fn split_fields_decreases(s: Seq<char>) {
    match find_sep(s) {
        Some(i) => {
            lemma_find_sep_spec(s);
        },
        None => {},
    }
}

/// The characters of the given range, as their own vector.
fn subvec_chars(v: &Vec<char>, from: usize, to: usize) -> (r: Vec<char>)
    requires
        from <= to <= v@.len(),
    ensures
        r@ == v@.subrange(from as int, to as int),
{
    let mut r: Vec<char> = Vec::new();
    let mut i: usize = from;
    while i < to
        invariant
            from <= i <= to <= v@.len(),
            r@ == v@.subrange(from as int, i as int),
        decreases to - i,
    {
        r.push(v[i]);
        assert(r@ =~= v@.subrange(from as int, i as int + 1));
        i = i + 1;
    }
    r
}

/// Splits on the field-separator token, leftmost occurrence first.
fn split_on_sep(v: &Vec<char>) -> (r: Vec<Vec<char>>)
    ensures
        r@.map_values(|p: Vec<char>| p@) == split_fields(v@),
{
    let n = v.len();
    let mut r: Vec<Vec<char>> = Vec::new();
    let mut start: usize = 0;
    proof {
        assert(v@.skip(0) =~= v@);
        assert(r@.map_values(|p: Vec<char>| p@) + split_fields(v@) =~= split_fields(v@));
    }
    loop
        invariant
            start <= n,
            n == v@.len(),
            split_fields(v@) == r@.map_values(|p: Vec<char>| p@) + split_fields(
                v@.skip(start as int),
            ),
        decreases n - start,
    {
        let ghost rest = v@.skip(start as int);
        // scan for the next separator occurrence at or after `start`
        let mut j = start;
        let mut found = false;
        while !found && j < n && n - j >= 3
            invariant
                start <= j <= n,
                n == v@.len(),
                !found ==> forall|k: int| start <= k < j ==> !sep_at(v@, k),
                found ==> sep_at(v@, j as int) && forall|k: int|
                    start <= k < j ==> !sep_at(v@, k),
            decreases n - j + (if found { 0int } else { 1int }),
        {
            if v[j] == '$' && v[j + 1] == '$' && v[j + 2] == '$' {
                found = true;
            } else {
                j = j + 1;
            }
        }
        proof {
            lemma_find_sep_spec(rest);
            assert forall|k: int| 0 <= k < rest.len() implies #[trigger] rest[k] == v@[start
                + k] by {}
            assert forall|k: int| start <= k < n implies (sep_at(v@, k) == sep_at(
                rest,
                k - start as int,
            )) by {}
        }
        if found {
            proof {
                match find_sep(rest) {
                    Some(i) => {
                        if i < j - start {
                            assert(sep_at(v@, i + start));
                        }
                        if i > j - start {
                            assert(!sep_at(rest, j - start as int));
                        }
                    },
                    None => {
                        assert(!sep_at(rest, j - start as int));
                    },
                }
                assert(find_sep(rest) == Some(j - start as int));
            }
            let piece = subvec_chars(v, start, j);
            let ghost pre_map = r@.map_values(|p: Vec<char>| p@);
            r.push(piece);
            proof {
                assert(r@.map_values(|p: Vec<char>| p@) =~= pre_map.push(piece@));
                assert(rest.take(j - start as int) =~= piece@);
                assert(rest.skip(j - start as int + 3) =~= v@.skip(j as int + 3));
                assert(split_fields(rest) == seq![piece@] + split_fields(v@.skip(j as int + 3)));
                assert(split_fields(v@) =~= r@.map_values(|p: Vec<char>| p@) + split_fields(
                    v@.skip(j as int + 3),
                ));
            }
            start = j + 3;
        } else {
            proof {
                match find_sep(rest) {
                    Some(i) => {
                        assert(sep_at(v@, i + start));
                    },
                    None => {},
                }
                assert(find_sep(rest) is None);
                assert(split_fields(rest) == seq![rest]);
            }
            let piece = subvec_chars(v, start, n);
            r.push(piece);
            proof {
                assert(rest =~= v@.subrange(start as int, n as int));
                assert(r@.map_values(|p: Vec<char>| p@) =~= split_fields(v@));
            }
            return r;
        }
    }
}

/// The token joining listed middle fields in a message.
pub open spec fn comma_sep() -> Seq<char> {
    seq![',', ' ']
}

/// The token joining the first field to the rest of a message.
pub open spec fn with_sep() -> Seq<char> {
    seq![' ', 'w', 'i', 't', 'h', ' ']
}

/// The token joining the last of three or more fields.
pub open spec fn and_sep() -> Seq<char> {
    seq![' ', 'a', 'n', 'd', ' ']
}

/// The closing words of every uniqueness message.
pub open spec fn already_exists() -> Seq<char> {
    seq![' ', 'a', 'l', 'r', 'e', 'a', 'd', 'y', ' ', 'e', 'x', 'i', 's', 't', 's']
}

/// Fields joined by the comma token.
pub open spec fn join_comma(fs: Seq<Seq<char>>) -> Seq<char>
    decreases fs.len(),
{
    if fs.len() == 0 {
        Seq::empty()
    } else if fs.len() == 1 {
        fs[0]
    } else {
        join_comma(fs.drop_last()) + comma_sep() + fs.last()
    }
}

/// The message for a list of implicated fields, before normalization: one
/// field alone, two joined by the with-token, three or more with the middle
/// ones comma-joined and the last led by the and-token.
pub open spec fn raw_message(fields: Seq<Seq<char>>) -> Seq<char>
    recommends
        fields.len() >= 1,
{
    if fields.len() <= 1 {
        fields[0] + already_exists()
    } else if fields.len() == 2 {
        fields[0] + with_sep() + fields[1] + already_exists()
    } else {
        fields[0] + with_sep() + join_comma(fields.subrange(1, fields.len() - 1)) + and_sep()
            + fields.last() + already_exists()
    }
}

/// Delimiter markers read as spaces in a user-facing message.
pub open spec fn normalize(s: Seq<char>) -> Seq<char> {
    s.map_values(
        |c: char|
            if c == marker() {
                ' '
            } else {
                c
            },
    )
}

/// What the mapper yields for an identifier: the first implicated field as
/// the error key, and the normalized message — or nothing, when the
/// identifier does not carry two distinct delimiter markers.
pub open spec fn constraint_mapping(ident: Seq<char>) -> Option<(Seq<char>, Seq<char>)> {
    match (first_marker(ident), last_marker(ident)) {
        (Some(f), Some(l)) => if f < l {
            let fields = split_fields(ident.subrange(f + 1, l));
            Some((fields[0], normalize(raw_message(fields))))
        } else {
            None
        },
        _ => None,
    }
}

/// Splitting yields at least one piece.
pub proof fn lemma_split_fields_nonempty(s: Seq<char>)
    ensures
        split_fields(s).len() >= 1,
{
}

/// Appends all characters of `piece`.
fn push_all(out: &mut Vec<char>, piece: &Vec<char>)
    ensures
        final(out)@ == old(out)@ + piece@,
{
    let n = piece.len();
    let mut i: usize = 0;
    while i < n
        invariant
            i <= n,
            n == piece@.len(),
            out@ == old(out)@ + piece@.take(i as int),
        decreases n - i,
    {
        out.push(piece[i]);
        assert(out@ =~= old(out)@ + piece@.take(i as int + 1));
        i = i + 1;
    }
    assert(out@ =~= old(out)@ + piece@);
}

/// Appends the with-token.
fn push_with(out: &mut Vec<char>)
    ensures
        final(out)@ == old(out)@ + with_sep(),
{
    out.push(' ');
    out.push('w');
    out.push('i');
    out.push('t');
    out.push('h');
    out.push(' ');
    assert(out@ =~= old(out)@ + with_sep());
}

/// Appends the and-token.
fn push_and(out: &mut Vec<char>)
    ensures
        final(out)@ == old(out)@ + and_sep(),
{
    out.push(' ');
    out.push('a');
    out.push('n');
    out.push('d');
    out.push(' ');
    assert(out@ =~= old(out)@ + and_sep());
}

/// Appends the comma token.
fn push_comma(out: &mut Vec<char>)
    ensures
        final(out)@ == old(out)@ + comma_sep(),
{
    out.push(',');
    out.push(' ');
    assert(out@ =~= old(out)@ + comma_sep());
}

/// Appends the closing words.
fn push_already_exists(out: &mut Vec<char>)
    ensures
        final(out)@ == old(out)@ + already_exists(),
{
    out.push(' ');
    out.push('a');
    out.push('l');
    out.push('r');
    out.push('e');
    out.push('a');
    out.push('d');
    out.push('y');
    out.push(' ');
    out.push('e');
    out.push('x');
    out.push('i');
    out.push('s');
    out.push('t');
    out.push('s');
    assert(out@ =~= old(out)@ + already_exists());
}

/// Builds the message for the given field list, by count of fields.
fn build_message(fields: &Vec<Vec<char>>) -> (r: Vec<char>)
    requires
        fields@.len() >= 1,
    ensures
        r@ == raw_message(fields@.map_values(|p: Vec<char>| p@)),
{
    let ghost fv = fields@.map_values(|p: Vec<char>| p@);
    let n = fields.len();
    let mut out: Vec<char> = Vec::new();
    push_all(&mut out, &fields[0]);
    assert(out@ =~= fv[0]);
    if n == 1 {
        push_already_exists(&mut out);
        assert(out@ =~= raw_message(fv));
    } else if n == 2 {
        push_with(&mut out);
        push_all(&mut out, &fields[1]);
        push_already_exists(&mut out);
        assert(out@ =~= raw_message(fv));
    } else {
        push_with(&mut out);
        let ghost head = fv[0] + with_sep();
        let mut k: usize = 1;
        while k < n - 1
            invariant
                1 <= k <= n - 1,
                n == fields@.len(),
                fv == fields@.map_values(|p: Vec<char>| p@),
                head == fv[0] + with_sep(),
                out@ == head + join_comma(fv.subrange(1, k as int)),
            decreases n - k,
        {
            if k > 1 {
                push_comma(&mut out);
            }
            push_all(&mut out, &fields[k]);
            proof {
                let sub = fv.subrange(1, k as int + 1);
                assert(sub.drop_last() =~= fv.subrange(1, k as int));
                assert(sub.last() == fv[k as int]);
                assert(out@ =~= head + join_comma(sub));
            }
            k = k + 1;
        }
        push_and(&mut out);
        push_all(&mut out, &fields[n - 1]);
        push_already_exists(&mut out);
        assert(out@ =~= raw_message(fv));
    }
    out
}

/// Rewrites delimiter markers to spaces.
fn normalize_chars(v: &Vec<char>) -> (r: Vec<char>)
    ensures
        r@ == normalize(v@),
{
    let n = v.len();
    let mut r: Vec<char> = Vec::new();
    let mut i: usize = 0;
    while i < n
        invariant
            i <= n,
            n == v@.len(),
            r@ == normalize(v@.take(i as int)),
        decreases n - i,
    {
        if v[i] == '_' {
            r.push(' ');
        } else {
            r.push(v[i]);
        }
        assert(r@ =~= normalize(v@.take(i as int + 1)));
        i = i + 1;
    }
    assert(r@ =~= normalize(v@));
    r
}

/// Maps a storage-engine uniqueness-violation identifier to an error key —
/// the first implicated field name — and a user-facing message naming every
/// implicated field, with delimiter markers read as spaces. Yields nothing
/// when the identifier does not carry two distinct delimiter markers; such
/// a violation is unrecognized and reported opaquely.
pub fn map_constraint(identifier: &str) -> (r: Option<(String, String)>)
    ensures
        (r is Some) == (constraint_mapping(identifier@) is Some),
        r matches Some(p) ==> constraint_mapping(identifier@) matches Some(q) && p.0@ == q.0
            && p.1@ == q.1,
{
    let chars = str_chars(identifier);
    let first = find_first_marker(&chars);
    let last = find_last_marker(&chars);
    if let Some(f) = first {
        if let Some(l) = last {
            if f < l {
                proof {
                    lemma_first_marker_spec(chars@);
                    lemma_last_marker_spec(chars@);
                }
                let mid = subvec_chars(&chars, f + 1, l);
                let fields = split_on_sep(&mid);
                proof {
                    lemma_split_fields_nonempty(mid@);
                    assert(fields@.map_values(|p: Vec<char>| p@).len() == fields@.len());
                }
                let key = chars_to_string(&fields[0], 0, fields[0].len());
                assert(key@ =~= fields@.map_values(|p: Vec<char>| p@)[0]);
                let raw = build_message(&fields);
                let norm = normalize_chars(&raw);
                let msg = chars_to_string(&norm, 0, norm.len());
                assert(msg@ =~= norm@);
                return Some((key, msg));
            }
        }
    }
    None
}

} // verus!
