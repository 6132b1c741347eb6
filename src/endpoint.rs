//! URLs of a collection's first page and of its numbered pages.

use vstd::prelude::*;

verus! {

/// Relies on String::push_str: appends the characters of `t`.
#[verifier::external_body]
fn push_text(s: &mut String, t: &str)
    ensures
        final(s)@ == old(s)@ + t@,
{
    s.push_str(t)
}

/// Relies on String::push: appends one character.
#[verifier::external_body]
fn push_char(s: &mut String, c: char)
    ensures
        final(s)@ == old(s)@.push(c),
{
    s.push(c)
}

/// The character of a decimal digit.
pub open spec fn digit_char(d: nat) -> char {
    if d == 0 {
        '0'
    } else if d == 1 {
        '1'
    } else if d == 2 {
        '2'
    } else if d == 3 {
        '3'
    } else if d == 4 {
        '4'
    } else if d == 5 {
        '5'
    } else if d == 6 {
        '6'
    } else if d == 7 {
        '7'
    } else if d == 8 {
        '8'
    } else {
        '9'
    }
}

/// `n` written in decimal, without leading zeros.
pub open spec fn decimal(n: nat) -> Seq<char>
    decreases n,
{
    if n < 10 {
        seq![digit_char(n)]
    } else {
        decimal(n / 10).push(digit_char(n % 10))
    }
}

/// The query that selects a page: `?page=`.
pub open spec fn page_query() -> Seq<char> {
    seq!['?', 'p', 'a', 'g', 'e', '=']
}

/// `{root}/{collection}`.
pub open spec fn collection_url_spec(root: Seq<char>, collection: Seq<char>) -> Seq<char> {
    root + seq!['/'] + collection
}

/// `{root}/{collection}?page={page}`.
pub open spec fn page_url_spec(root: Seq<char>, collection: Seq<char>, page: nat) -> Seq<char> {
    collection_url_spec(root, collection) + page_query() + decimal(page)
}

fn digit(d: u64) -> (c: char)
    requires
        d < 10,
    ensures
        c == digit_char(d as nat),
{
    if d == 0 {
        '0'
    } else if d == 1 {
        '1'
    } else if d == 2 {
        '2'
    } else if d == 3 {
        '3'
    } else if d == 4 {
        '4'
    } else if d == 5 {
        '5'
    } else if d == 6 {
        '6'
    } else if d == 7 {
        '7'
    } else if d == 8 {
        '8'
    } else {
        '9'
    }
}

fn push_decimal(s: &mut String, n: u64)
    ensures
        final(s)@ == old(s)@ + decimal(n as nat),
    decreases n,
{
    if n >= 10 {
        push_decimal(s, n / 10);
    }
    push_char(s, digit(n % 10));
    assert(s@ =~= old(s)@ + decimal(n as nat));
}

/// The URL of a collection's first page: `{root}/{collection}`.
pub fn collection_url(root: &str, collection: &str) -> (r: String)
    ensures
        r@ == collection_url_spec(root@, collection@),
{
    let mut s = root.to_owned();
    push_char(&mut s, '/');
    push_text(&mut s, collection);
    s
}

/// The URL of one page of a collection: `{root}/{collection}?page={page}`.
pub fn page_url(root: &str, collection: &str, page: u64) -> (r: String)
    ensures
        r@ == page_url_spec(root@, collection@, page as nat),
{
    let mut s = collection_url(root, collection);
    let q = "?page=";
    proof {
        reveal_strlit("?page=");
        assert(q@ =~= page_query());
    }
    push_text(&mut s, q);
    push_decimal(&mut s, page);
    s
}

} // verus!
