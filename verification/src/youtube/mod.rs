//! Videos found by a YouTube search and how they are labelled in Discord.

pub mod download;

use crate::text::{
    decimal_value, lemma_ascii_only_identity, lemma_decimal_reads_back, lemma_int_text_reads_back,
    ascii_only, first_chars, int_text, is_ascii_char, lemma_ascii_only, lemma_decimal_ascii,
    push_char, push_int, push_int_padded2, push_str, retain_ascii, take_chars, trunc_div, trunc_rem,
    zero_padded2, decimal, digit_char,
};
use vstd::prelude::*;
use vstd::string::*;

verus! {

/// Longest label, in characters, that a Discord button accepts.
pub const LABEL_LIMIT: usize = 80;

/// Number of videos one search asks `yt-dlp` for.
pub const SEARCH_RESULTS: usize = 5;

/// A video found by a search.
///
/// `length` is the video's duration rounded to whole seconds (a missing
/// duration counts as zero).
pub struct VideoInfo {
    pub title: String,
    pub video_id: String,
    pub length: i64,
}

/// The duration prefix of a label: `(minutes:seconds)` with the seconds
/// zero-padded to two digits.
pub open spec fn duration_text(length: int) -> Seq<char> {
    seq!['('] + int_text(trunc_div(length, 60)) + seq![':'] + zero_padded2(trunc_rem(length, 60))
        + seq![')']
}

/// The button label of a video: its duration prefix, a space, and the
/// ASCII characters of its title, cut to the first 80 characters.
pub open spec fn discord_label(length: int, title: Seq<char>) -> Seq<char> {
    first_chars(duration_text(length) + seq![' '] + ascii_only(title), LABEL_LIMIT as nat)
}

impl VideoInfo {
    /// The label under which this video is offered in Discord.
    pub fn get_discord_interaction_str(&self) -> (res: String)
        ensures
            res@ == discord_label(self.length as int, self.title@),
    {
        let length = self.length;
        let minutes = length / 60;
        let seconds = length % 60;
        assert(minutes == trunc_div(length as int, 60));
        assert(seconds == trunc_rem(length as int, 60));
        let mut full = String::new();
        push_char(&mut full, '(');
        push_int(&mut full, minutes);
        push_char(&mut full, ':');
        push_int_padded2(&mut full, seconds);
        push_char(&mut full, ')');
        push_char(&mut full, ' ');
        let title = retain_ascii(self.title.as_str());
        push_str(&mut full, title.as_str());
        assert(full@ =~= duration_text(length as int) + seq![' '] + ascii_only(self.title@));
        take_chars(full.as_str(), LABEL_LIMIT)
    }
}

/// A label is never longer than 80 characters and holds only ASCII
/// characters, whatever the title holds.
pub proof fn lemma_label_is_short_ascii(length: int, title: Seq<char>)
    ensures
        discord_label(length, title).len() <= LABEL_LIMIT,
        forall|i: int|
            0 <= i < discord_label(length, title).len() ==> is_ascii_char(
                #[trigger] discord_label(length, title)[i],
            ),
{
    let m = trunc_div(length, 60);
    let r = trunc_rem(length, 60);
    lemma_int_text_ascii(m);
    lemma_zero_padded2_ascii(r);
    lemma_ascii_only(title);
    let full = duration_text(length) + seq![' '] + ascii_only(title);
    assert forall|i: int| 0 <= i < full.len() implies is_ascii_char(#[trigger] full[i]) by {
        let d = duration_text(length);
        if i < d.len() {
            let a = seq!['('] + int_text(m);
            let b = a + seq![':'];
            let c = b + zero_padded2(r);
            if i == 0 {
            } else if i < a.len() {
                assert(full[i] == int_text(m)[i - 1]);
            } else if i < b.len() {
            } else if i < c.len() {
                assert(full[i] == zero_padded2(r)[i - b.len()]);
            } else {
            }
        } else if i == d.len() {
        } else {
            assert(full[i] == ascii_only(title)[i - d.len() - 1]);
        }
    }
}

/// A title made only of ASCII characters is shown whole: the label is the
/// duration, a space and the title itself, cut to 80 characters; when it
/// fits, the label ends with the title.
pub proof fn lemma_label_keeps_ascii_title(length: int, title: Seq<char>)
    requires
        forall|i: int| 0 <= i < title.len() ==> '\0' <= #[trigger] title[i] <= '\u{7f}',
    ensures
        discord_label(length, title) == first_chars(
            duration_text(length) + seq![' '] + title,
            LABEL_LIMIT as nat,
        ),
        duration_text(length).len() + 1 + title.len() <= LABEL_LIMIT ==> {
            let label = discord_label(length, title);
            &&& label.len() == duration_text(length).len() + 1 + title.len()
            &&& label.skip(label.len() - title.len()) == title
            &&& label[duration_text(length).len() as int] == ' '
        },
{
    lemma_ascii_only_identity(title);
    let full = duration_text(length) + seq![' '] + title;
    assert(full.skip(full.len() - title.len()) =~= title);
}

/// For a non-negative length the duration reads `(m:ss)`: the digits between
/// `(` and `:` read back as the whole minutes, and the two digits between
/// `:` and `)` read back as the remaining seconds.
pub proof fn lemma_duration_reads_back(length: int)
    requires
        length >= 0,
    ensures
        ({
            let d = duration_text(length);
            &&& d.len() >= 6
            &&& d[0] == '('
            &&& d[d.len() - 4] == ':'
            &&& d[d.len() - 1] == ')'
            &&& decimal_value(d.subrange(1, d.len() - 4)) == length / 60
            &&& forall|i: int| 1 <= i < d.len() - 4 ==> '0' <= #[trigger] d[i] <= '9'
            &&& '0' <= d[d.len() - 3] <= '9'
            &&& '0' <= d[d.len() - 2] <= '9'
            &&& decimal_value(d.subrange(d.len() - 3, d.len() - 1)) == length % 60
        }),
{
    let m = trunc_div(length, 60);
    let r = trunc_rem(length, 60);
    assert(m == length / 60 && r == length % 60);
    lemma_int_text_reads_back(m);
    lemma_decimal_reads_back(r as nat);
    let p = zero_padded2(r);
    if r < 10 {
        let z = seq!['0'];
        assert(z.drop_last() =~= Seq::<char>::empty());
        assert(z.last() == '0');
        assert(decimal_value(z) == decimal_value(z.drop_last()) * 10 + (z.last() as int - '0' as int));
        assert(decimal_value(z) == 0);
        assert(p.drop_last() =~= z);
        assert(p.len() == 2);
        assert(decimal((r as nat)) == seq![digit_char(r as nat)]);
        assert(p.last() == digit_char(r as nat));
        assert(decimal_value(p) == decimal_value(p.drop_last()) * 10 + (p.last() as int - '0' as int));
    } else {
        assert(decimal((r / 10) as nat) == seq![digit_char((r / 10) as nat)]);
        assert(p.len() == 2);
    }
    let d = duration_text(length);
    let mt = int_text(m);
    assert(d.subrange(1, d.len() - 4) =~= mt);
    assert(d.subrange(d.len() - 3, d.len() - 1) =~= p);
    assert forall|i: int| 1 <= i < d.len() - 4 implies '0' <= #[trigger] d[i] <= '9' by {
        assert(d[i] == mt[i - 1]);
    }
    assert(d[d.len() - 3] == p[0]);
    assert(d[d.len() - 2] == p[1]);
    if r < 10 {
        lemma_digit_char_is_digit(r as nat);
    } else {
        lemma_decimal_reads_back(r as nat);
    }
}

proof fn lemma_digit_char_is_digit(d: nat)
    requires
        d < 10,
    ensures
        '0' <= digit_char(d) <= '9',
{
}

proof fn lemma_int_text_ascii(x: int)
    ensures
        forall|i: int| 0 <= i < int_text(x).len() ==> is_ascii_char(#[trigger] int_text(x)[i]),
{
    if x < 0 {
        lemma_decimal_ascii((-x) as nat);
        assert forall|i: int| 0 <= i < int_text(x).len() implies is_ascii_char(
            #[trigger] int_text(x)[i],
        ) by {
            if i > 0 {
                assert(int_text(x)[i] == decimal((-x) as nat)[i - 1]);
            }
        }
    } else {
        lemma_decimal_ascii(x as nat);
    }
}

proof fn lemma_zero_padded2_ascii(x: int)
    ensures
        forall|i: int|
            0 <= i < zero_padded2(x).len() ==> is_ascii_char(#[trigger] zero_padded2(x)[i]),
{
    lemma_int_text_ascii(x);
    if 0 <= x < 10 {
        lemma_decimal_ascii(x as nat);
        assert forall|i: int| 0 <= i < zero_padded2(x).len() implies is_ascii_char(
            #[trigger] zero_padded2(x)[i],
        ) by {
            if i > 0 {
                assert(zero_padded2(x)[i] == decimal(x as nat)[i - 1]);
            }
        }
    }
}

} // verus!
