//! Text handling for identifiers and capability queries.
use vstd::prelude::*;

verus! {

/// The characters with the Unicode `White_Space` property.
pub open spec fn is_white_space(c: char) -> bool {
    let u = c as u32;
    ||| 0x9 <= u <= 0xd
    ||| u == 0x20
    ||| u == 0x85
    ||| u == 0xa0
    ||| u == 0x1680
    ||| 0x2000 <= u <= 0x200a
    ||| u == 0x2028
    ||| u == 0x2029
    ||| u == 0x202f
    ||| u == 0x205f
    ||| u == 0x3000
}

/// `s` without its leading whitespace.
pub open spec fn trim_start(s: Seq<char>) -> Seq<char>
    decreases s.len(),
{
    if s.len() > 0 && is_white_space(s[0]) {
        trim_start(s.drop_first())
    } else {
        s
    }
}

/// `s` without its trailing whitespace.
pub open spec fn trim_end(s: Seq<char>) -> Seq<char>
    decreases s.len(),
{
    if s.len() > 0 && is_white_space(s.last()) {
        trim_end(s.drop_last())
    } else {
        s
    }
}

/// `s` without its leading and trailing whitespace.
pub open spec fn trimmed(s: Seq<char>) -> Seq<char> {
    trim_end(trim_start(s))
}

/// An identifier is blank when nothing is left of it after trimming.
pub open spec fn is_blank(s: Seq<char>) -> bool {
    trimmed(s).len() == 0
}

/// The pieces of `s` between commas, in order, empty pieces included; a
/// string without a comma is one piece.
pub open spec fn comma_pieces(s: Seq<char>) -> Seq<Seq<char>>
    decreases s.len(),
{
    if s.len() == 0 {
        seq![Seq::<char>::empty()]
    } else {
        let rest = comma_pieces(s.drop_last());
        if s.last() == ',' {
            rest.push(Seq::<char>::empty())
        } else {
            rest.update(rest.len() - 1, rest.last().push(s.last()))
        }
    }
}

/// The trimmed pieces that are not blank, in order.
pub open spec fn tokens_of(pieces: Seq<Seq<char>>) -> Seq<Seq<char>>
    decreases pieces.len(),
{
    if pieces.len() == 0 {
        Seq::<Seq<char>>::empty()
    } else {
        let prev = tokens_of(pieces.drop_last());
        let t = trimmed(pieces.last());
        if t.len() == 0 {
            prev
        } else {
            prev.push(t)
        }
    }
}

/// The capability names that a comma-separated query asks for.
pub open spec fn requested_capabilities(query: Seq<char>) -> Seq<Seq<char>> {
    tokens_of(comma_pieces(query))
}

/// The character sequences of a sequence of strings.
pub open spec fn names_of(v: Seq<String>) -> Seq<Seq<char>> {
    v.map_values(|s: String| s@)
}

/// Relies on `str::trim`: the string without its leading and trailing
/// characters of the Unicode `White_Space` property.
#[verifier::external_body]
pub(crate) fn trim_str(s: &str) -> (r: &str)
    ensures
        r@ == trimmed(s@),
{
    s.trim()
}

/// Relies on `str::split` with the pattern `','`: every piece between two
/// commas, or before the first or after the last, in order.
#[verifier::external_body]
fn split_commas(s: &str) -> (r: Vec<String>)
    ensures
        names_of(r@) == comma_pieces(s@),
{
    s.split(',').map(String::from).collect()
}

/// Whether an identifier is empty or holds only whitespace.
pub fn is_blank_id(id: &str) -> (r: bool)
    ensures
        r == is_blank(id@),
{
    trim_str(id).is_empty()
}

/// Splits a query at its commas, trims each piece and keeps the pieces that
/// are not blank, in order.
pub fn parse_capabilities(query: &str) -> (r: Vec<String>)
    ensures
        names_of(r@) == requested_capabilities(query@),
{
    let pieces = split_commas(query);
    let mut out: Vec<String> = Vec::new();
    let mut i: usize = 0;
    while i < pieces.len()
        invariant
            i <= pieces@.len(),
            names_of(pieces@) == comma_pieces(query@),
            names_of(out@) == tokens_of(names_of(pieces@).subrange(0, i as int)),
        decreases pieces@.len() - i,
    {
        let t = trim_str(pieces[i].as_str());
        let ghost before = names_of(pieces@).subrange(0, i as int);
        let ghost after = names_of(pieces@).subrange(0, i + 1);
        assert(after.drop_last() =~= before);
        assert(after.last() == pieces@[i as int]@);
        if !t.is_empty() {
            out.push(t.to_string());
            assert(names_of(out@) =~= tokens_of(before).push(t@));
        }
        i = i + 1;
    }
    assert(names_of(pieces@).subrange(0, pieces@.len() as int) =~= names_of(pieces@));
    out
}

} // verus!
