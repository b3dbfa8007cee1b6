//! Anchors for headings.
//!
//! An anchor is made from the plain text of a heading. Headings with the
//! same text get different anchors: the first one keeps the bare anchor,
//! and each later one gets a number appended.

use regex::Regex;
use std::borrow::Cow;
use vstd::hash_map::StringHashMap;
use vstd::prelude::*;
use vstd::string::StringExecFns;

verus! {

/// The lower case form of a text, as `str::to_lowercase` gives it.
pub uninterp spec fn lowercase(text: Seq<char>) -> Seq<char>;

/// Whether a character is a word character of the `regex` crate: one that
/// its class `\w` matches.
pub uninterp spec fn is_word_char(c: char) -> bool;

/// The characters that an anchor keeps: word characters, hyphens and
/// spaces.
pub open spec fn is_anchor_char(c: char) -> bool {
    is_word_char(c) || c == '-' || c == ' '
}

/// A text with a hyphen in the place of each space.
pub open spec fn hyphenated(text: Seq<char>) -> Seq<char> {
    text.map_values(
        |c: char|
            if c == ' ' {
                '-'
            } else {
                c
            },
    )
}

/// The anchor that a text stands for before duplicates are told apart: the
/// text in lower case, a hyphen for each space, and of the result only the
/// characters that an anchor keeps.
pub open spec fn candidate(text: Seq<char>) -> Seq<char> {
    hyphenated(lowercase(text)).filter(|c: char| is_anchor_char(c))
}

/// Calls `str::to_lowercase`. The result is named, not described: it is
/// the lower case form that the standard library defines for the text.
#[verifier::external_body]
fn to_lowercase(text: &str) -> (lowered: String)
    ensures
        lowered@ == lowercase(text@),
{
    text.to_lowercase()
}

/// Calls `str::replace` with a space as the pattern and a hyphen as the
/// replacement: every space becomes a hyphen, and every other character
/// stays as it is.
#[verifier::external_body]
fn spaces_to_hyphens(text: &str) -> (replaced: String)
    ensures
        replaced@ == hyphenated(text@),
{
    text.replace(' ', "-")
}

/// Calls `Regex::new` on the pattern `[^\w\- ]` and `Regex::replace_all`
/// with the empty replacement. The pattern matches one character that is
/// neither a word character, a hyphen nor a space, so each such character
/// is taken out and all others stay, in their order.
#[verifier::external_body]
fn strip_punctuation(text: &str) -> (stripped: String)
    ensures
        stripped@ == text@.filter(|c: char| is_anchor_char(c)),
        forall|i: int|
            0 <= i < stripped@.len() ==> is_word_char(#[trigger] stripped@[i])
                || stripped@[i] == '-' || stripped@[i] == ' ',
{
    Regex::new(r"[^\w\- ]").unwrap().replace_all(text, "").into_owned()
}

/// The character of a decimal digit.
pub open spec fn digit(d: nat) -> char {
    if d == 0 {
        '0'
    } else if d == 1 {
        '1'
    } else if d == 2 {
        '2'
    } else if d == 3 {
        '3'
    } else if d == 4 {
        '4'
    } else if d == 5 {
        '5'
    } else if d == 6 {
        '6'
    } else if d == 7 {
        '7'
    } else if d == 8 {
        '8'
    } else {
        '9'
    }
}

/// A number written in decimal digits, without leading zeros.
pub open spec fn decimal(n: nat) -> Seq<char>
    decreases n,
{
    if n < 10 {
        seq![digit(n)]
    } else {
        decimal(n / 10).push(digit(n % 10))
    }
}

/// A decimal digit as text.
fn digit_str(d: u64) -> (s: &'static str)
    requires
        d < 10,
    ensures
        s@ == seq![digit(d as nat)],
{
    proof {
        reveal_strlit("0");
        reveal_strlit("1");
        reveal_strlit("2");
        reveal_strlit("3");
        reveal_strlit("4");
        reveal_strlit("5");
        reveal_strlit("6");
        reveal_strlit("7");
        reveal_strlit("8");
        reveal_strlit("9");
    }
    let s = if d == 0 {
        "0"
    } else if d == 1 {
        "1"
    } else if d == 2 {
        "2"
    } else if d == 3 {
        "3"
    } else if d == 4 {
        "4"
    } else if d == 5 {
        "5"
    } else if d == 6 {
        "6"
    } else if d == 7 {
        "7"
    } else if d == 8 {
        "8"
    } else {
        "9"
    };
    s
}

/// Writes a number in decimal digits.
pub fn decimal_string(n: u64) -> (digits: String)
    ensures
        digits@ == decimal(n as nat),
    decreases n,
{
    if n < 10 {
        String::from_str(digit_str(n))
    } else {
        let mut digits = decimal_string(n / 10);
        digits.append(digit_str(n % 10));
        digits
    }
}

/// The number that is recorded for a candidate when it comes up once more:
/// 0 the first time, and one more each time after that. The count stops
/// at the largest number that it can hold.
pub open spec fn occurrence(counts: Map<Seq<char>, u64>, candidate: Seq<char>) -> u64 {
    if !counts.contains_key(candidate) {
        0
    } else if counts[candidate] < u64::MAX {
        (counts[candidate] + 1) as u64
    } else {
        u64::MAX
    }
}

/// The anchor of a candidate that comes up for the `n`-th time after its
/// first: the bare candidate the first time, and then the candidate, a
/// hyphen and the number.
pub open spec fn numbered(candidate: Seq<char>, n: u64) -> Seq<char> {
    if n == 0 {
        candidate
    } else {
        candidate + seq!['-'] + decimal(n as nat)
    }
}

/// A way of making anchors from the texts of headings.
///
/// A slugifier may keep a state, to tell apart the headings of one
/// document that have the same text.
pub trait Slugify {
    /// Whether `slugify`, called on `text` in the state `self`, may return
    /// `anchor` and leave the state `next`.
    ///
    /// A slugifier that says nothing of itself leaves every anchor and
    /// every state open.
    open spec fn slugify_spec(&self, text: Seq<char>, anchor: Seq<char>, next: &Self) -> bool {
        true
    }

    /// The anchor of a heading with the given plain text.
    fn slugify<'a>(&mut self, text: &'a str) -> (anchor: Cow<'a, str>)
        ensures
            old(self).slugify_spec(text@, anchor@, final(self)),
    ;
}

/// Whether a slugifier that starts in the state `start` may return
/// `anchors` for `texts`, one text after the other, and end in the state
/// `end`.
pub open spec fn yields<S: Slugify>(
    start: S,
    texts: Seq<Seq<char>>,
    anchors: Seq<Seq<char>>,
    end: S,
) -> bool
    decreases texts.len(),
{
    if texts.len() == 0 {
        anchors.len() == 0 && end == start
    } else {
        &&& anchors.len() == texts.len()
        &&& exists|mid: S|
            yields(start, texts.drop_last(), anchors.drop_last(), mid)
                && #[trigger] mid.slugify_spec(texts.last(), anchors.last(), &end)
    }
}

/// A slugifier that makes anchors the way GitHub does for the headings of
/// a rendered Markdown file.
pub struct GitHubSlugifier {
    counts: StringHashMap<u64>,
}

impl View for GitHubSlugifier {
    type V = Map<Seq<char>, u64>;

    /// For each candidate that has come up, how often it has done so
    /// after the first time.
    closed spec fn view(&self) -> Map<Seq<char>, u64> {
        self.counts@
    }
}

impl Default for GitHubSlugifier {
    /// A slugifier that has seen no text yet.
    fn default() -> (slugifier: Self)
        ensures
            slugifier@ == Map::<Seq<char>, u64>::empty(),
    {
        GitHubSlugifier { counts: StringHashMap::new() }
    }
}

impl GitHubSlugifier {
    /// The candidate anchor of a text.
    pub fn candidate(text: &str) -> (anchor: String)
        ensures
            anchor@ == candidate(text@),
    {
        let lowered = to_lowercase(text);
        let replaced = spaces_to_hyphens(lowered.as_str());
        strip_punctuation(replaced.as_str())
    }

    /// Records one more occurrence of a candidate and returns the anchor
    /// that tells this occurrence apart from the earlier ones.
    pub fn disambiguate(&mut self, candidate: String) -> (anchor: String)
        ensures
            anchor@ == numbered(candidate@, occurrence(old(self)@, candidate@)),
            final(self)@ == old(self)@.insert(candidate@, occurrence(old(self)@, candidate@)),
    {
        let count: u64 = match self.counts.get(candidate.as_str()) {
            Some(seen) => if *seen < u64::MAX {
                *seen + 1
            } else {
                u64::MAX
            },
            None => 0,
        };
        self.counts.insert(candidate.clone(), count);
        if count == 0 {
            candidate
        } else {
            let mut anchor = candidate;
            anchor.append("-");
            anchor.append(decimal_string(count).as_str());
            proof {
                reveal_strlit("-");
            }
            anchor
        }
    }
}

impl Slugify for GitHubSlugifier {
    /// The anchor is the candidate of the text, numbered by how often the
    /// candidate has come up before, and the state records the occurrence.
    open spec fn slugify_spec(&self, text: Seq<char>, anchor: Seq<char>, next: &Self) -> bool {
        &&& anchor == numbered(candidate(text), occurrence(self@, candidate(text)))
        &&& next@ == self@.insert(candidate(text), occurrence(self@, candidate(text)))
    }

    fn slugify<'a>(&mut self, text: &'a str) -> (anchor: Cow<'a, str>) {
        let candidate = GitHubSlugifier::candidate(text);
        Cow::Owned(self.disambiguate(candidate))
    }
}

/// What a slugifier of GitHub's way has recorded once it has made the
/// anchors of `texts`, one text after the other, having started with
/// `counts`.
pub open spec fn github_counts(
    counts: Map<Seq<char>, u64>,
    texts: Seq<Seq<char>>,
) -> Map<Seq<char>, u64>
    decreases texts.len(),
{
    if texts.len() == 0 {
        counts
    } else {
        let before = github_counts(counts, texts.drop_last());
        before.insert(candidate(texts.last()), occurrence(before, candidate(texts.last())))
    }
}

/// The anchors that a slugifier of GitHub's way makes for `texts`, one
/// text after the other, having started with `counts`: each text gets its
/// candidate, numbered by what the texts before it have left recorded.
pub open spec fn github_anchors(
    counts: Map<Seq<char>, u64>,
    texts: Seq<Seq<char>>,
) -> Seq<Seq<char>> {
    Seq::new(
        texts.len(),
        |i: int|
            numbered(
                candidate(texts[i]),
                occurrence(github_counts(counts, texts.take(i)), candidate(texts[i])),
            ),
    )
}

/// A text whose candidate has not come up yet gets the bare candidate as
/// its anchor, whatever else has been recorded: two slugifiers that have
/// both not seen the candidate return the same anchor for the text.
pub proof fn lemma_fresh_text_gets_bare_anchor(
    first: GitHubSlugifier,
    second: GitHubSlugifier,
    text: Seq<char>,
    first_anchor: Seq<char>,
    second_anchor: Seq<char>,
    first_next: GitHubSlugifier,
    second_next: GitHubSlugifier,
)
    requires
        !first@.contains_key(candidate(text)),
        !second@.contains_key(candidate(text)),
        first.slugify_spec(text, first_anchor, &first_next),
        second.slugify_spec(text, second_anchor, &second_next),
    ensures
        first_anchor == candidate(text),
        second_anchor == first_anchor,
{
}

/// No anchor candidate holds a space: each of its characters is a word
/// character or a hyphen.
pub proof fn lemma_candidate_has_no_space(text: Seq<char>)
    ensures
        forall|i: int|
            0 <= i < candidate(text).len() ==> is_word_char(#[trigger] candidate(text)[i])
                || candidate(text)[i] == '-',
{
    let replaced = hyphenated(lowercase(text));
    let keep = |c: char| is_anchor_char(c);
    assert forall|i: int| 0 <= i < candidate(text).len() implies is_word_char(
        #[trigger] candidate(text)[i],
    ) || candidate(text)[i] == '-' by {
        let c = candidate(text)[i];
        replaced.lemma_filter_pred(keep, i);
        replaced.lemma_filter_contains_rev(keep, c);
        let j = choose|j: int| 0 <= j < replaced.len() && replaced[j] == c;
    }
}

/// Texts with one candidate are told apart by numbers: where none of them
/// has been seen before, the first gets the bare candidate, and each later
/// one the candidate with the number of texts before it.
pub proof fn lemma_duplicates_are_numbered(
    counts: Map<Seq<char>, u64>,
    texts: Seq<Seq<char>>,
    anchor: Seq<char>,
)
    requires
        !counts.contains_key(anchor),
        forall|i: int| 0 <= i < texts.len() ==> candidate(#[trigger] texts[i]) == anchor,
    ensures
        forall|i: int|
            0 <= i < texts.len() && i <= u64::MAX ==> #[trigger] github_anchors(counts, texts)[i]
                == numbered(anchor, i as u64),
{
    let anchors = github_anchors(counts, texts);
    assert forall|i: int| 0 <= i < texts.len() && i <= u64::MAX implies #[trigger] anchors[i]
        == numbered(anchor, i as u64) by {
        lemma_duplicates_are_counted(counts, texts.take(i), anchor);
    }
}

/// What is recorded for a candidate after texts that all have it: one less
/// than the number of the texts, and nothing where there are none.
proof fn lemma_duplicates_are_counted(
    counts: Map<Seq<char>, u64>,
    texts: Seq<Seq<char>>,
    anchor: Seq<char>,
)
    requires
        !counts.contains_key(anchor),
        forall|i: int| 0 <= i < texts.len() ==> candidate(#[trigger] texts[i]) == anchor,
    ensures
        texts.len() == 0 ==> !github_counts(counts, texts).contains_key(anchor),
        0 < texts.len() <= u64::MAX ==> github_counts(counts, texts).contains_key(anchor)
            && github_counts(counts, texts)[anchor] == texts.len() - 1,
        texts.len() <= u64::MAX ==> occurrence(github_counts(counts, texts), anchor)
            == texts.len(),
    decreases texts.len(),
{
    if texts.len() > 0 {
        lemma_duplicates_are_counted(counts, texts.drop_last(), anchor);
    }
}

/// A slugifier of GitHub's way leaves nothing open: the anchors that it
/// returns for a run of texts, and what it has recorded after them, are
/// fixed by the texts and by what it had recorded before.
pub proof fn lemma_github_yields(
    start: GitHubSlugifier,
    texts: Seq<Seq<char>>,
    anchors: Seq<Seq<char>>,
    end: GitHubSlugifier,
)
    requires
        yields(start, texts, anchors, end),
    ensures
        anchors == github_anchors(start@, texts),
        end@ == github_counts(start@, texts),
    decreases texts.len(),
{
    if texts.len() == 0 {
    } else {
        let mid = choose|mid: GitHubSlugifier|
            yields(start, texts.drop_last(), anchors.drop_last(), mid)
                && #[trigger] mid.slugify_spec(texts.last(), anchors.last(), &end);
        lemma_github_yields(start, texts.drop_last(), anchors.drop_last(), mid);
        let expected = github_anchors(start@, texts);
        assert forall|i: int| 0 <= i < anchors.len() implies anchors[i] == expected[i] by {
            if i < anchors.len() - 1 {
                assert(anchors[i] == anchors.drop_last()[i]);
                assert(texts.drop_last().take(i) =~= texts.take(i));
            } else {
            }
        }
    }
}

} // verus!
