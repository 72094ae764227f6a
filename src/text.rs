use vstd::prelude::*;
use vstd::std_specs::iter::IteratorSpec;

verus! {

/// The characters of `s`, in order.
pub fn chars_of(s: &str) -> (r: Vec<char>)
    ensures
        r@ == s@,
{
    broadcast use vstd::string::axiom_spec_iter, vstd::string::next_postcondition;

    let mut it = s.chars();
    let mut r: Vec<char> = Vec::new();
    loop
        invariant
            r@ + IteratorSpec::remaining(&it) == s@,
            IteratorSpec::decrease(&it) is Some,
        decreases IteratorSpec::decrease(&it)->0,
    {
        match it.next() {
            Some(c) => {
                r.push(c);
            },
            None => {
                assert(r@ + IteratorSpec::remaining(&it) =~= r@);
                return r;
            },
        }
    }
}

/// Relies on `String`'s `FromIterator<char>`: the string made of the characters of `v`, in order.
#[verifier::external_body]
pub(crate) fn string_of(v: &Vec<char>) -> (r: String)
    ensures
        r@ == v@,
{
    v.iter().collect()
}

/// `v` is a Unicode scalar value: not a surrogate and at most U+10FFFF.
pub open spec fn is_code_point(v: u32) -> bool {
    v < 0xD800 || (0xE000 <= v && v <= 0x10FFFF)
}

/// Relies on `char::from_u32`: the character with code point `v`, or `None`
/// when `v` is a surrogate or past U+10FFFF.
#[verifier::external_body]
pub(crate) fn char_from_u32(v: u32) -> (r: Option<char>)
    ensures
        r == (if is_code_point(v) { Some(v as char) } else { None }),
{
    char::from_u32(v)
}

/// Number of times a loop over `1..n` runs.
pub open spec fn span_len(n: int) -> nat {
    if n >= 1 { (n - 1) as nat } else { 0 }
}

/// The bar drawn for `val` out of `max`: a run of full blocks, then a run of light shades.
pub open spec fn bar_of(val: int, max: int) -> Seq<char> {
    Seq::new(span_len(val), |_i: int| '█') + Seq::new(span_len(max - val), |_i: int| '░')
}

fn push_run(out: &mut Vec<char>, c: char, n: u32)
    ensures
        final(out)@ == old(out)@ + Seq::new(span_len(n as int), |_i: int| c),
{
    let ghost start = out@;
    let mut i: u32 = 1;
    while i < n
        invariant
            1 <= i,
            i <= n || i == 1,
            out@ == start + Seq::new((i - 1) as nat, |_k: int| c),
        decreases n - i,
    {
        out.push(c);
        i = i + 1;
        assert(out@ =~= start + Seq::new((i - 1) as nat, |_k: int| c));
    }
    assert((i - 1) as nat == span_len(n as int));
    assert(out@ =~= start + Seq::new(span_len(n as int), |_k: int| c));
}

/// Draws a horizontal bar: `val - 1` full blocks followed by `max - val - 1`
/// light shades (a run whose count would be negative is empty).
pub fn ascii_bar(val: u32, max: u32) -> (r: String)
    requires
        val <= max,
    ensures
        r@ == bar_of(val as int, max as int),
{
    let mut out: Vec<char> = Vec::new();
    push_run(&mut out, '█', val);
    push_run(&mut out, '░', max - val);
    assert(out@ =~= bar_of(val as int, max as int));
    string_of(&out)
}

} // verus!
