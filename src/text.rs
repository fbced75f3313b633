//! The strings the crawl builds: decimal ids, the search text that finds the
//! quotes of a tweet, and the name of the output file.

use vstd::prelude::*;

verus! {

/// The one-character text of the decimal digit `d`.
pub open spec fn digit_text(d: nat) -> Seq<char> {
    if d == 0 {
        "0"@
    } else if d == 1 {
        "1"@
    } else if d == 2 {
        "2"@
    } else if d == 3 {
        "3"@
    } else if d == 4 {
        "4"@
    } else if d == 5 {
        "5"@
    } else if d == 6 {
        "6"@
    } else if d == 7 {
        "7"@
    } else if d == 8 {
        "8"@
    } else {
        "9"@
    }
}

/// `n` written in decimal, without sign or leading zeros.
pub open spec fn decimal_text(n: nat) -> Seq<char>
    decreases n,
{
    if n < 10 {
        digit_text(n)
    } else {
        decimal_text(n / 10) + digit_text(n % 10)
    }
}

fn digit_str(d: u64) -> (r: &'static str)
    requires
        d < 10,
    ensures
        r@ == digit_text(d as nat),
{
    if d == 0 {
        "0"
    } else if d == 1 {
        "1"
    } else if d == 2 {
        "2"
    } else if d == 3 {
        "3"
    } else if d == 4 {
        "4"
    } else if d == 5 {
        "5"
    } else if d == 6 {
        "6"
    } else if d == 7 {
        "7"
    } else if d == 8 {
        "8"
    } else {
        "9"
    }
}

/// Appends `n` in decimal to `s`.
pub fn push_decimal(s: &mut String, n: u64)
    ensures
        final(s)@ == old(s)@ + decimal_text(n as nat),
    decreases n,
{
    if n >= 10 {
        push_decimal(s, n / 10);
    }
    s.append(digit_str(n % 10));
    assert(final(s)@ == old(s)@ + decimal_text(n as nat));
}

/// `n` in decimal.
pub fn decimal(n: u64) -> (r: String)
    ensures
        r@ == decimal_text(n as nat),
{
    let mut s = String::new();
    push_decimal(&mut s, n);
    assert(s@ =~= decimal_text(n as nat));
    s
}

/// The public address of a tweet, which is also the search text that finds
/// the tweets quoting it.
pub open spec fn tweet_url(screen_name: Seq<char>, id: u64) -> Seq<char> {
    "https://twitter.com/"@ + screen_name + "/status/"@ + decimal_text(id as nat)
}

/// The search text for the tweets that quote tweet `id` of `screen_name`.
pub fn search_query(screen_name: &str, id: u64) -> (r: String)
    ensures
        r@ == tweet_url(screen_name@, id),
{
    let mut s = String::new();
    s.append("https://twitter.com/");
    s.append(screen_name);
    s.append("/status/");
    push_decimal(&mut s, id);
    assert(s@ =~= tweet_url(screen_name@, id));
    s
}

/// The seeds in decimal, separated by single spaces.
pub open spec fn joined_ids(ids: Seq<u64>) -> Seq<char>
    decreases ids.len(),
{
    if ids.len() == 0 {
        Seq::empty()
    } else if ids.len() == 1 {
        decimal_text(ids[0] as nat)
    } else {
        joined_ids(ids.drop_last()) + " "@ + decimal_text(ids.last() as nat)
    }
}

/// The name of the graph file: the seeds joined by spaces, a space, the unix
/// time in seconds, and the `.dot` suffix.
pub open spec fn output_name_text(seeds: Seq<u64>, unix_secs: u64) -> Seq<char> {
    joined_ids(seeds) + " "@ + decimal_text(unix_secs as nat) + ".dot"@
}

/// Names the file that the graph of a crawl from `seeds`, finished at
/// `unix_secs`, is written to.
pub fn output_file_name(seeds: &Vec<u64>, unix_secs: u64) -> (r: String)
    ensures
        r@ == output_name_text(seeds@, unix_secs),
{
    let mut s = String::new();
    let mut i: usize = 0;
    while i < seeds.len()
        invariant
            0 <= i <= seeds.len(),
            s@ == joined_ids(seeds@.take(i as int)),
        decreases seeds.len() - i,
    {
        let ghost before = s@;
        if i > 0 {
            s.append(" ");
        }
        push_decimal(&mut s, seeds[i]);
        proof {
            let next = seeds@.take(i + 1);
            assert(next.drop_last() =~= seeds@.take(i as int));
            assert(next.last() == seeds@[i as int]);
            if i == 0 {
                assert(before =~= Seq::<char>::empty());
                assert(s@ =~= decimal_text(seeds@[0] as nat));
            } else {
                assert(s@ =~= joined_ids(next.drop_last()) + " "@ + decimal_text(next.last() as nat));
            }
        }
        i = i + 1;
    }
    assert(seeds@.take(seeds@.len() as int) =~= seeds@);
    s.append(" ");
    push_decimal(&mut s, unix_secs);
    s.append(".dot");
    assert(s@ =~= output_name_text(seeds@, unix_secs));
    s
}

} // verus!
