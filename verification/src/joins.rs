//! The volume-serial join: device activities paired with the file and folder
//! activities that name the same NTFS/FAT volume serial.
use vstd::prelude::*;
use crate::activity::{is_file_or_folder, ActivityView, Subject, SubjectView, UserActivity};
use crate::render::{decimal_nat, decimal_reads_back};
use crate::text::{
    chars_of, has_prefix, is_digit, is_whitespace, is_whitespace_char, parse_u32, parse_u32_chars,
};

verus! {

/// The first index at or after `i` that does not hold whitespace (or the end).
pub open spec fn skip_whitespace(s: Seq<char>, i: int) -> int
    decreases s.len() - i,
{
    if 0 <= i < s.len() && is_whitespace(s[i]) {
        skip_whitespace(s, i + 1)
    } else {
        i
    }
}

/// The first index at or after `i` that holds whitespace (or the end).
pub open spec fn word_end(s: Seq<char>, i: int) -> int
    decreases s.len() - i,
{
    if 0 <= i < s.len() && !is_whitespace(s[i]) {
        word_end(s, i + 1)
    } else {
        i
    }
}

/// `skip_whitespace` moves forward, stays within the text, and stops on a
/// non-whitespace character.
pub proof fn lemma_skip_whitespace(s: Seq<char>, i: int)
    requires
        0 <= i,
    ensures
        i <= skip_whitespace(s, i),
        skip_whitespace(s, i) < s.len() ==> !is_whitespace(s[skip_whitespace(s, i)]),
        i <= s.len() ==> skip_whitespace(s, i) <= s.len(),
    decreases s.len() - i,
{
    if 0 <= i < s.len() && is_whitespace(s[i]) {
        lemma_skip_whitespace(s, i + 1);
    }
}

/// `word_end` moves forward, stays within the text, and moves past at least one
/// character when it starts on a non-whitespace one.
pub proof fn lemma_word_end(s: Seq<char>, i: int)
    requires
        0 <= i,
    ensures
        i <= word_end(s, i),
        i <= s.len() ==> word_end(s, i) <= s.len(),
        0 <= i < s.len() && !is_whitespace(s[i]) ==> i < word_end(s, i),
    decreases s.len() - i,
{
    if 0 <= i < s.len() && !is_whitespace(s[i]) {
        lemma_word_end(s, i + 1);
    }
}

/// The whitespace-separated words of `s` from index `i` on.
pub open spec fn tokens_from(s: Seq<char>, i: int) -> Seq<Seq<char>>
    decreases s.len() - i,
{
    if i < 0 || i >= s.len() {
        Seq::empty()
    } else {
        let a = skip_whitespace(s, i);
        if a >= s.len() {
            Seq::empty()
        } else {
            let b = word_end(s, a);
            proof {
                lemma_skip_whitespace(s, i);
                lemma_word_end(s, a);
            }
            seq![s.subrange(a, b)] + tokens_from(s, b)
        }
    }
}

/// What `str::split_whitespace` yields: the maximal runs of non-whitespace
/// characters, in order.
pub open spec fn whitespace_tokens(s: Seq<char>) -> Seq<Seq<char>> {
    tokens_from(s, 0)
}

/// The serial a single `vol:<serial>` token advertises.
pub open spec fn token_serial(t: Seq<char>) -> Option<u32> {
    if has_prefix(t, "vol:"@) {
        parse_u32(t.skip("vol:"@.len() as int))
    } else {
        None
    }
}

/// The serial of the first token that advertises one.
pub open spec fn first_serial(tokens: Seq<Seq<char>>) -> Option<u32>
    decreases tokens.len(),
{
    if tokens.len() == 0 {
        None
    } else {
        match token_serial(tokens[0]) {
            Some(v) => Some(v),
            None => first_serial(tokens.drop_first()),
        }
    }
}

/// The volume-serial hint a detail string carries: the first whitespace-separated
/// `vol:<serial>` token whose serial parses as a `u32`.
pub open spec fn volume_serial_hint(detail: Seq<char>) -> Option<u32> {
    first_serial(whitespace_tokens(detail))
}

/// Whether `s[a..b]` is a `vol:<serial>` token, and its serial.
fn token_serial_at(s: &Vec<char>, a: usize, b: usize) -> (r: Option<u32>)
    requires
        a <= b <= s@.len(),
    ensures
        r == token_serial(s@.subrange(a as int, b as int)),
{
    let ghost t = s@.subrange(a as int, b as int);
    let prefix = chars_of("vol:");
    let plen = prefix.len();
    if b - a < plen {
        return None;
    }
    let mut j: usize = 0;
    while j < plen
        invariant
            prefix@ == "vol:"@,
            plen == prefix@.len(),
            a + plen <= b <= s@.len(),
            t == s@.subrange(a as int, b as int),
            j <= plen,
            forall|k: int| 0 <= k < j ==> s@[a + k] == prefix@[k],
        decreases plen - j,
    {
        if s[a + j] != prefix[j] {
            proof {
                assert(t.subrange(0, plen as int)[j as int] != prefix@[j as int]);
            }
            return None;
        }
        j = j + 1;
    }
    proof {
        assert(t.subrange(0, plen as int) =~= prefix@);
        assert(t.skip(plen as int) =~= s@.subrange(a + plen, b as int));
    }
    parse_u32_chars(s, a + plen, b)
}

/// Extract the `vol:<serial>` volume-serial hint a file/folder activity advertises
/// in its detail, if any.
pub fn file_volume_serial(activity: &UserActivity) -> (r: Option<u32>)
    ensures
        r == volume_serial_hint(activity@.detail),
{
    let s = chars_of(activity.detail.as_str());
    let n = s.len();
    let mut i: usize = 0;
    loop
        invariant
            n == s@.len(),
            s@ == activity@.detail,
            i <= n,
            volume_serial_hint(s@) == first_serial(tokens_from(s@, i as int)),
        decreases n - i,
    {
        let mut a = i;
        while a < n && is_whitespace_char(s[a])
            invariant
                i <= a <= n == s@.len(),
                skip_whitespace(s@, i as int) == skip_whitespace(s@, a as int),
            decreases n - a,
        {
            a = a + 1;
        }
        if a >= n {
            return None;
        }
        let mut b = a;
        while b < n && !is_whitespace_char(s[b])
            invariant
                a <= b <= n == s@.len(),
                word_end(s@, a as int) == word_end(s@, b as int),
            decreases n - b,
        {
            b = b + 1;
        }
        let ghost rest = tokens_from(s@, b as int);
        proof {
            assert(tokens_from(s@, i as int) == seq![s@.subrange(a as int, b as int)] + rest);
            assert((seq![s@.subrange(a as int, b as int)] + rest).drop_first() =~= rest);
        }
        match token_serial_at(&s, a, b) {
            Some(v) => {
                return Some(v);
            },
            None => {},
        }
        i = b;
    }
}

/// The volume serial a device activity carries, if any.
pub open spec fn device_serial(a: ActivityView) -> Option<u32> {
    match a.subject {
        SubjectView::Device { volume_serial, .. } => volume_serial,
        _ => None,
    }
}

/// Event `d` is a device carrying a volume serial and event `f` is a file or folder
/// whose detail advertises that same serial.
pub open spec fn volume_match(events: Seq<ActivityView>, d: int, f: int) -> bool {
    &&& device_serial(events[d]) is Some
    &&& is_file_or_folder(events[f].subject)
    &&& volume_serial_hint(events[f].detail) == device_serial(events[d])
}

/// The pairs `(d, f)` for device `d` and every file `f < m` that it matches, in
/// increasing `f`.
pub open spec fn join_row(events: Seq<ActivityView>, d: int, m: int) -> Seq<(usize, usize)>
    decreases m,
{
    if m <= 0 {
        Seq::empty()
    } else {
        join_row(events, d, m - 1) + if volume_match(events, d, m - 1) {
            seq![(d as usize, (m - 1) as usize)]
        } else {
            Seq::empty()
        }
    }
}

/// The join rows of the devices `d < n`, in increasing `d`.
pub open spec fn joins_upto(events: Seq<ActivityView>, n: int) -> Seq<(usize, usize)>
    decreases n,
{
    if n <= 0 {
        Seq::empty()
    } else {
        joins_upto(events, n - 1) + join_row(events, n - 1, events.len() as int)
    }
}

/// Every `(device_index, file_index)` pair of the volume-serial join, ordered by
/// device index and then file index.
pub open spec fn volume_joins(events: Seq<ActivityView>) -> Seq<(usize, usize)> {
    joins_upto(events, events.len() as int)
}

/// Generic volume-serial join: pair every device activity with every file / folder
/// activity that names the **same volume serial**. Returns `(device_index,
/// file_index)` pairs into `events`.
///
/// A file/folder subject advertises its volume serial via the `vol:<serial>` token
/// convention in its detail.
pub fn device_file_volume_joins(events: &[UserActivity]) -> (r: Vec<(usize, usize)>)
    ensures
        r@ == volume_joins(events.deep_view()),
{
    let n = events.len();
    let ghost ev = events.deep_view();
    let mut hints: Vec<Option<u32>> = Vec::new();
    let mut f: usize = 0;
    while f < n
        invariant
            n == events@.len(),
            ev == events.deep_view(),
            f <= n,
            hints@.len() == f,
            forall|k: int|
                0 <= k < f ==> #[trigger] hints@[k] == if is_file_or_folder(ev[k].subject) {
                    volume_serial_hint(ev[k].detail)
                } else {
                    None
                },
        decreases n - f,
    {
        let e = &events[f];
        let hint = match &e.subject {
            Subject::File(_) | Subject::Folder(_) => file_volume_serial(e),
            _ => None,
        };
        hints.push(hint);
        f = f + 1;
    }
    let mut pairs: Vec<(usize, usize)> = Vec::new();
    let mut d: usize = 0;
    while d < n
        invariant
            n == events@.len() == hints@.len(),
            ev == events.deep_view(),
            d <= n,
            forall|k: int|
                0 <= k < n ==> #[trigger] hints@[k] == if is_file_or_folder(ev[k].subject) {
                    volume_serial_hint(ev[k].detail)
                } else {
                    None
                },
            pairs@ == joins_upto(ev, d as int),
        decreases n - d,
    {
        let serial: Option<u32> = match &events[d].subject {
            Subject::Device { volume_serial, .. } => *volume_serial,
            _ => None,
        };
        let ghost base = pairs@;
        match serial {
            Some(dev_serial) => {
                proof {
                    assert(base + join_row(ev, d as int, 0) =~= base);
                }
                let mut g: usize = 0;
                while g < n
                    invariant
                        n == events@.len() == hints@.len(),
                        ev == events.deep_view(),
                        d < n,
                        g <= n,
                        device_serial(ev[d as int]) == Some(dev_serial),
                        forall|k: int|
                            0 <= k < n ==> #[trigger] hints@[k] == if is_file_or_folder(
                                ev[k].subject,
                            ) {
                                volume_serial_hint(ev[k].detail)
                            } else {
                                None
                            },
                        pairs@ == base + join_row(ev, d as int, g as int),
                    decreases n - g,
                {
                    let hit = match hints[g] {
                        Some(v) => v == dev_serial,
                        None => false,
                    };
                    if hit {
                        pairs.push((d, g));
                    }
                    proof {
                        if hit {
                            assert(volume_match(ev, d as int, g as int));
                        } else {
                            assert(!volume_match(ev, d as int, g as int));
                        }
                        assert(pairs@ =~= base + join_row(ev, d as int, g + 1));
                    }
                    g = g + 1;
                }
            },
            None => {
                proof {
                    lemma_row_empty(ev, d as int, n as int);
                    assert(pairs@ =~= base + join_row(ev, d as int, n as int));
                }
            },
        }
        d = d + 1;
    }
    pairs
}

proof fn lemma_row_empty(events: Seq<ActivityView>, d: int, m: int)
    requires
        0 <= d < events.len(),
        device_serial(events[d]) is None,
    ensures
        join_row(events, d, m) == Seq::<(usize, usize)>::empty(),
    decreases m,
{
    if m > 0 {
        lemma_row_empty(events, d, m - 1);
        assert(join_row(events, d, m) =~= Seq::<(usize, usize)>::empty());
    }
}


proof fn lemma_row_members(events: Seq<ActivityView>, d: int, m: int, x: usize, y: usize)
    requires
        events.len() <= usize::MAX,
        0 <= d < events.len(),
        0 <= m <= events.len(),
    ensures
        join_row(events, d, m).contains((x, y)) <==> (x == d && y < m && volume_match(
            events,
            d,
            y as int,
        )),
    decreases m,
{
    if m > 0 {
        lemma_row_members(events, d, m - 1, x, y);
        let prev = join_row(events, d, m - 1);
        let tail = if volume_match(events, d, m - 1) {
            seq![(d as usize, (m - 1) as usize)]
        } else {
            Seq::<(usize, usize)>::empty()
        };
        assert(join_row(events, d, m) == prev + tail);
        if (prev + tail).contains((x, y)) {
            let i = choose|i: int| 0 <= i < (prev + tail).len() && (prev + tail)[i] == (x, y);
            if i < prev.len() {
                assert(prev[i] == (x, y));
            } else {
                assert(tail[i - prev.len()] == (x, y));
            }
        }
        if x == d && y < m && volume_match(events, d, y as int) {
            if y < m - 1 {
                let i = choose|i: int| 0 <= i < prev.len() && prev[i] == (x, y);
                assert((prev + tail)[i] == (x, y));
            } else {
                assert((prev + tail)[prev.len() as int] == (x, y));
            }
        }
    }
}

proof fn lemma_upto_members(events: Seq<ActivityView>, n: int, x: usize, y: usize)
    requires
        events.len() <= usize::MAX,
        0 <= n <= events.len(),
    ensures
        joins_upto(events, n).contains((x, y)) <==> (x < n && y < events.len() && volume_match(
            events,
            x as int,
            y as int,
        )),
    decreases n,
{
    if n > 0 {
        lemma_upto_members(events, n - 1, x, y);
        lemma_row_members(events, n - 1, events.len() as int, x, y);
        let prev = joins_upto(events, n - 1);
        let row = join_row(events, n - 1, events.len() as int);
        if (prev + row).contains((x, y)) {
            let i = choose|i: int| 0 <= i < (prev + row).len() && (prev + row)[i] == (x, y);
            if i < prev.len() {
                assert(prev[i] == (x, y));
            } else {
                assert(row[i - prev.len()] == (x, y));
            }
        }
        if x < n && y < events.len() && volume_match(events, x as int, y as int) {
            if x < n - 1 {
                let i = choose|i: int| 0 <= i < prev.len() && prev[i] == (x, y);
                assert((prev + row)[i] == (x, y));
            } else {
                let i = choose|i: int| 0 <= i < row.len() && row[i] == (x, y);
                assert((prev + row)[prev.len() + i] == (x, y));
            }
        }
    }
}

/// The join is exact: `(d, f)` is reported if and only if event `d` is a device
/// carrying a volume serial and event `f` is a file or folder whose detail advertises
/// that same serial.
pub proof fn volume_joins_exact(events: Seq<ActivityView>, d: usize, f: usize)
    requires
        events.len() <= usize::MAX,
    ensures
        volume_joins(events).contains((d, f)) <==> (d < events.len() && f < events.len()
            && volume_match(events, d as int, f as int)),
{
    lemma_upto_members(events, events.len() as int, d, f);
}

/// With no file or folder activity in the timeline (as from shell-history and
/// device sources alone), the volume-serial join is empty.
pub proof fn volume_joins_need_files(events: Seq<ActivityView>)
    requires
        events.len() <= usize::MAX,
        forall|i: int| 0 <= i < events.len() ==> !is_file_or_folder(#[trigger] events[i].subject),
    ensures
        volume_joins(events).len() == 0,
{
    let j = volume_joins(events);
    if j.len() > 0 {
        let (d, f) = j[0];
        volume_joins_exact(events, d, f);
        assert(j.contains((d, f)));
        assert(false);
    }
}


/// Every device carrying a volume serial is paired with every file or folder whose
/// detail advertises that serial, wherever each stands in the timeline (before or
/// after the other).
pub proof fn volume_join_pairs_every_match(events: Seq<ActivityView>, d: usize, f: usize, s: u32)
    requires
        events.len() <= usize::MAX,
        d < events.len(),
        f < events.len(),
        events[d as int].subject is Device,
        events[d as int].subject->volume_serial == Some(s),
        events[f as int].subject is File || events[f as int].subject is Folder,
        volume_serial_hint(events[f as int].detail) == Some(s),
    ensures
        volume_joins(events).contains((d, f)),
{
    volume_joins_exact(events, d, f);
}

/// Every reported pair is a device carrying a volume serial and a file or folder
/// whose detail advertises that same serial.
pub proof fn volume_join_pairs_only_matches(events: Seq<ActivityView>, d: usize, f: usize)
    requires
        events.len() <= usize::MAX,
        volume_joins(events).contains((d, f)),
    ensures
        d < events.len(),
        f < events.len(),
        events[d as int].subject is Device,
        events[d as int].subject->volume_serial is Some,
        events[f as int].subject is File || events[f as int].subject is Folder,
        volume_serial_hint(events[f as int].detail) == events[d as int].subject->volume_serial,
{
    volume_joins_exact(events, d, f);
}


proof fn lemma_word_end_at(s: Seq<char>, i: int, j: int)
    requires
        0 <= i <= j <= s.len(),
        forall|k: int| i <= k < j ==> !is_whitespace(#[trigger] s[k]),
        j == s.len() || is_whitespace(s[j]),
    ensures
        word_end(s, i) == j,
    decreases j - i,
{
    if i < j {
        lemma_word_end_at(s, i + 1, j);
    }
}

/// A detail that opens with a `vol:` token spelling a `u32` in decimal advertises
/// that serial, whatever follows the token after a whitespace character.
pub proof fn volume_hint_reads_leading_token(n: u32, w: char, rest: Seq<char>)
    requires
        is_whitespace(w),
    ensures
        volume_serial_hint("vol:"@ + decimal_nat(n as nat)) == Some(n),
        volume_serial_hint("vol:"@ + decimal_nat(n as nat) + seq![w] + rest) == Some(n),
{
    reveal_strlit("vol:");
    decimal_reads_back(n as nat);
    let tok = "vol:"@ + decimal_nat(n as nat);
    assert forall|k: int| 0 <= k < tok.len() implies !is_whitespace(#[trigger] tok[k]) by {
        if k >= 4 {
            assert(tok[k] == decimal_nat(n as nat)[k - 4]);
            assert(is_digit(decimal_nat(n as nat)[k - 4]));
        }
    }
    assert(tok.skip(4) =~= decimal_nat(n as nat));
    assert(tok.subrange(0, 4) =~= "vol:"@);
    assert(token_serial(tok) == Some(n));
    // the token alone
    assert(skip_whitespace(tok, 0) == 0);
    lemma_word_end_at(tok, 0, tok.len() as int);
    assert(tok.subrange(0, tok.len() as int) =~= tok);
    assert(tokens_from(tok, 0)[0] == tok);
    // the token followed by whitespace and more text
    let long = tok + seq![w] + rest;
    assert forall|k: int| 0 <= k < tok.len() implies !is_whitespace(#[trigger] long[k]) by {
        assert(long[k] == tok[k]);
    }
    assert(long[tok.len() as int] == w);
    assert(skip_whitespace(long, 0) == 0);
    lemma_word_end_at(long, 0, tok.len() as int);
    assert(long.subrange(0, tok.len() as int) =~= tok);
    assert(tokens_from(long, 0)[0] == tok);
}


proof fn lemma_skip_shift(p: Seq<char>, r: Seq<char>, i: int)
    requires
        0 <= i <= r.len(),
    ensures
        skip_whitespace(p + r, p.len() + i) == p.len() + skip_whitespace(r, i),
    decreases r.len() - i,
{
    if i < r.len() {
        assert((p + r)[p.len() + i] == r[i]);
        lemma_skip_shift(p, r, i + 1);
    }
}

proof fn lemma_word_end_shift(p: Seq<char>, r: Seq<char>, i: int)
    requires
        0 <= i <= r.len(),
    ensures
        word_end(p + r, p.len() + i) == p.len() + word_end(r, i),
    decreases r.len() - i,
{
    if i < r.len() {
        assert((p + r)[p.len() + i] == r[i]);
        lemma_word_end_shift(p, r, i + 1);
    }
}

proof fn lemma_tokens_shift(p: Seq<char>, r: Seq<char>, i: int)
    requires
        0 <= i <= r.len(),
    ensures
        tokens_from(p + r, p.len() + i) == tokens_from(r, i),
    decreases r.len() - i,
{
    if i < r.len() {
        lemma_skip_shift(p, r, i);
        lemma_skip_whitespace(r, i);
        let a = skip_whitespace(r, i);
        if a < r.len() {
            lemma_word_end_shift(p, r, a);
            lemma_word_end(r, a);
            let b = word_end(r, a);
            lemma_tokens_shift(p, r, b);
            assert((p + r).subrange(p.len() + a, p.len() + b) =~= r.subrange(a, b));
        }
    }
}

/// A word that is not a `vol:` token is passed over: the hint of a detail that
/// opens with such a word and a whitespace character is the hint of the rest.
pub proof fn volume_hint_skips_other_words(word: Seq<char>, w: char, rest: Seq<char>)
    requires
        word.len() > 0,
        forall|k: int| 0 <= k < word.len() ==> !is_whitespace(#[trigger] word[k]),
        !has_prefix(word, "vol:"@),
        is_whitespace(w),
    ensures
        volume_serial_hint(word + seq![w] + rest) == volume_serial_hint(rest),
{
    let tail = seq![w] + rest;
    let long = word + tail;
    assert(long =~= word + seq![w] + rest);
    assert forall|k: int| 0 <= k < word.len() implies !is_whitespace(#[trigger] long[k]) by {
        assert(long[k] == word[k]);
    }
    assert(long[word.len() as int] == w);
    assert(skip_whitespace(long, 0) == 0);
    lemma_word_end_at(long, 0, word.len() as int);
    assert(long.subrange(0, word.len() as int) =~= word);
    let toks = tokens_from(long, 0);
    assert(toks == seq![word] + tokens_from(long, word.len() as int));
    assert(toks.drop_first() =~= tokens_from(long, word.len() as int));
    lemma_tokens_shift(word, tail, 0);
    assert(tokens_from(long, word.len() as int) == tokens_from(tail, 0));
    assert(tail[0] == w);
    assert(skip_whitespace(tail, 0) == skip_whitespace(tail, 1));
    assert(tokens_from(tail, 0) == tokens_from(tail, 1));
    lemma_tokens_shift(seq![w], rest, 0);
}

} // verus!
