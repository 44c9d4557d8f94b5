//! The race provider's side: what a snapshot holds, where it is fetched from,
//! how it is cut out of the page that carries it, and the polling cycle.
use vstd::prelude::*;
use vstd::string::StringExecFns;
use crate::Update;
use crate::text::chars_of;

verus! {

/// One entry of a snapshot, as far as it is read here. A field that the
/// provider left out, or gave in another shape, is `None`. Positions are the
/// bit patterns of single-precision numbers.
#[derive(Debug, Clone, PartialEq, Eq)]
pub struct Rider {
    /// The key under which the provider lists the entry.
    pub id: String,
    /// The team number, as the text the provider sent.
    pub team_number: Option<String>,
    pub latitude: Option<u32>,
    pub longitude: Option<u32>,
}

/// Everything the provider reported at one poll, in the provider's order.
#[derive(Debug, Clone, PartialEq, Eq)]
pub struct Snapshot {
    pub riders: Vec<Rider>,
}

/// Names the snapshot stream of one race: the place of the race among those
/// subscribed to, in the order of their first subscription.
#[derive(Debug, Clone, Copy, PartialEq, Eq, Structural)]
pub struct RaceHandle {
    pub slot: usize,
}

/// Declares the provider's data as it was parsed; nothing is known of its
/// inside here.
#[verifier::external_type_specification]
#[verifier::external_body]
pub struct ExValue(serde_json::Value);

/// Declares the parser's error; nothing is known of its inside here.
#[verifier::external_type_specification]
#[verifier::external_body]
pub struct ExError(serde_json::Error);

/// Why a page gave no snapshot.
#[derive(Debug, Clone, Copy, PartialEq, Eq, Structural)]
pub enum PollError {
    /// The page could not be fetched.
    NoPage,
    /// No line of the page assigns the riders.
    MissingLine,
    /// The line that assigns the riders assigns nothing.
    NoJson,
    /// What the line assigns is not well-formed.
    Malformed,
}

/// Seconds between the end of one fetch and the start of the next, whatever
/// the fetch came to.
pub const SLEEP_SECONDS: u64 = 60;

/// Whether `c` is white space in the sense of the Unicode character database.
pub open spec fn is_space(c: char) -> bool {
    let n = c as u32;
    ||| 0x09 <= n <= 0x0d
    ||| n == 0x20
    ||| n == 0x85
    ||| n == 0xa0
    ||| n == 0x1680
    ||| 0x2000 <= n <= 0x200a
    ||| n == 0x2028
    ||| n == 0x2029
    ||| n == 0x202f
    ||| n == 0x205f
    ||| n == 0x3000
}

/// `s` without the white space that leads it.
pub open spec fn trim_start(s: Seq<char>) -> Seq<char>
    decreases s.len(),
{
    if s.len() > 0 && is_space(s[0]) {
        trim_start(s.skip(1))
    } else {
        s
    }
}

/// `s` without the white space that ends it.
pub open spec fn trim_end(s: Seq<char>) -> Seq<char>
    decreases s.len(),
{
    if s.len() > 0 && is_space(s.last()) {
        trim_end(s.drop_last())
    } else {
        s
    }
}

/// `s` without white space at either end.
pub open spec fn trimmed(s: Seq<char>) -> Seq<char> {
    trim_end(trim_start(s))
}

/// What a line has to start with, white space aside, to be the line that
/// assigns the riders.
pub open spec fn marker() -> Seq<char> {
    "var ridersArray = "@
}

/// What a line assigns to the riders, if it is such a line: the rest of the
/// line behind the marker, with no white space at its end.
pub open spec fn line_payload(line: Seq<char>) -> Option<Seq<char>> {
    let text = trimmed(line);
    if marker().is_prefix_of(text) {
        Some(text.skip(marker().len() as int))
    } else {
        None
    }
}

/// Where the line that starts at `from` ends: at the next line feed, or at
/// the end of the text.
pub open spec fn line_end(text: Seq<char>, from: int) -> int
    decreases text.len() - from,
{
    if from < 0 || from >= text.len() || text[from] == '\n' {
        from
    } else {
        line_end(text, from + 1)
    }
}

/// A line ends at or behind its start, and within the text.
pub proof fn line_end_is_within(text: Seq<char>, from: int)
    requires
        0 <= from <= text.len(),
    ensures
        from <= line_end(text, from) <= text.len(),
        line_end(text, from) < text.len() ==> text[line_end(text, from)] == '\n',
        forall|i: int| from <= i < line_end(text, from) ==> text[i] != '\n',
    decreases text.len() - from,
{
    if from < text.len() && text[from] != '\n' {
        line_end_is_within(text, from + 1);
    }
}

/// What the first line at or behind `from` that assigns the riders assigns.
pub open spec fn payload_from(text: Seq<char>, from: int) -> Option<Seq<char>>
    decreases text.len() + 1 - from,
    via payload_from_ends
{
    if from < 0 || from >= text.len() {
        None
    } else {
        let end = line_end(text, from);
        match line_payload(text.subrange(from, end)) {
            Some(found) => Some(found),
            None => payload_from(text, end + 1),
        }
    }
}

#[via_fn]
proof fn payload_from_ends(text: Seq<char>, from: int) {
    if 0 <= from < text.len() {
        line_end_is_within(text, from);
    }
}

/// What the first line of `text` that assigns the riders assigns.
pub open spec fn riders_payload(text: Seq<char>) -> Option<Seq<char>> {
    payload_from(text, 0)
}

/// Whether `c` is white space between the values of the provider's notation.
pub open spec fn is_json_space(c: char) -> bool {
    c == ' ' || c == '\n' || c == '\t' || c == '\r'
}

/// Whether `s` holds nothing but white space between values.
pub open spec fn is_blank(s: Seq<char>) -> bool {
    forall|i: int| 0 <= i < s.len() ==> is_json_space(#[trigger] s[i])
}

/// Tells white space from everything else.
pub fn space(c: char) -> (r: bool)
    ensures
        r == is_space(c),
{
    let n: u32 = c as u32;
    (0x09 <= n && n <= 0x0d) || n == 0x20 || n == 0x85 || n == 0xa0 || n == 0x1680 || (0x2000 <= n
        && n <= 0x200a) || n == 0x2028 || n == 0x2029 || n == 0x202f || n == 0x205f || n == 0x3000
}

/// Skipping a run of white space at the start is trimming the start.
pub proof fn trim_start_skips(s: Seq<char>, k: int)
    requires
        0 <= k <= s.len(),
        forall|i: int| 0 <= i < k ==> is_space(#[trigger] s[i]),
        k == s.len() || !is_space(s[k]),
    ensures
        trim_start(s) == s.skip(k),
    decreases k,
{
    if k > 0 {
        let rest = s.skip(1);
        assert forall|i: int| 0 <= i < k - 1 implies is_space(#[trigger] rest[i]) by {
            assert(rest[i] == s[i + 1]);
        }
        trim_start_skips(rest, k - 1);
        assert(rest.skip(k - 1) == s.skip(k));
    } else {
        assert(s.skip(0) == s);
    }
}

/// Dropping a run of white space at the end is trimming the end.
pub proof fn trim_end_takes(s: Seq<char>, k: int)
    requires
        0 <= k <= s.len(),
        forall|i: int| k <= i < s.len() ==> is_space(#[trigger] s[i]),
        k == 0 || !is_space(s[k - 1]),
    ensures
        trim_end(s) == s.take(k),
    decreases s.len() - k,
{
    if k < s.len() {
        let rest = s.drop_last();
        assert(is_space(s[s.len() - 1]));
        trim_end_takes(rest, k);
        assert(rest.take(k) == s.take(k));
    } else {
        assert(s.take(k) == s);
    }
}

/// Collects characters into a string with `String::from_iter` of the standard
/// library: the string holds `chars[from..to]` and nothing else.
#[verifier::external_body]
fn string_of(chars: &Vec<char>, from: usize, to: usize) -> (s: String)
    requires
        from <= to <= chars.len(),
    ensures
        s@ == chars@.subrange(from as int, to as int),
{
    String::from_iter(chars[from..to].iter())
}

/// Cuts what the page assigns to the riders out of the page: the rest of the
/// first line that starts with the marker, white space around the line aside.
pub fn find_payload(text: &str) -> (r: Option<String>)
    ensures
        match r {
            Some(found) => riders_payload(text@) == Some(found@),
            None => riders_payload(text@) is None,
        },
{
    let chars = chars_of(text);
    let mark = chars_of("var ridersArray = ");
    let mut from: usize = 0;
    while from < chars.len()
        invariant
            chars@ == text@,
            mark@ == marker(),
            from <= chars.len(),
            riders_payload(text@) == payload_from(text@, from as int),
        decreases chars.len() - from,
    {
        let mut end: usize = from;
        while end < chars.len() && chars[end] != '\n'
            invariant
                from <= end <= chars.len(),
                line_end(chars@, from as int) == line_end(chars@, end as int),
            decreases chars.len() - end,
        {
            end = end + 1;
        }
        assert(line_end(chars@, from as int) == end);
        let ghost line = chars@.subrange(from as int, end as int);
        let mut first: usize = from;
        while first < end && space(chars[first])
            invariant
                from <= first <= end <= chars.len(),
                line == chars@.subrange(from as int, end as int),
                forall|i: int| 0 <= i < first - from ==> is_space(#[trigger] line[i]),
            decreases end - first,
        {
            first = first + 1;
        }
        let mut last: usize = end;
        while last > first && space(chars[last - 1])
            invariant
                first <= last <= end <= chars.len(),
                from <= first,
                line == chars@.subrange(from as int, end as int),
                forall|i: int| last - first <= i < end - first ==> is_space(
                    #[trigger] line.skip(first - from)[i],
                ),
            decreases last,
        {
            last = last - 1;
        }
        let ghost body = chars@.subrange(first as int, last as int);
        proof {
            trim_start_skips(line, first - from);
            trim_end_takes(line.skip(first - from), last - first);
            assert(line.skip(first - from).take(last - first) == body);
            assert(trimmed(line) == body);
        }
        if last - first >= mark.len() {
            let mut k: usize = 0;
            while k < mark.len() && chars[first + k] == mark[k]
                invariant
                    k <= mark.len() <= last - first,
                    last <= chars.len(),
                    body == chars@.subrange(first as int, last as int),
                    forall|i: int| 0 <= i < k ==> #[trigger] body[i] == mark@[i],
                decreases mark.len() - k,
            {
                k = k + 1;
            }
            if k == mark.len() {
                assert(body.subrange(0, mark@.len() as int) == mark@);
                assert(body.skip(mark@.len() as int) == chars@.subrange(
                    first + mark.len(),
                    last as int,
                ));
                return Some(string_of(&chars, first + mark.len(), last));
            } else {
                assert(body[k as int] != mark@[k as int]);
                assert(!marker().is_prefix_of(body));
            }
        }
        assert(line_payload(line) is None);
        if end == chars.len() {
            assert(payload_from(text@, end + 1) is None);
            return None;
        }
        from = end + 1;
    }
    None
}

/// What the stream deserializer of `serde_json` reads first in `line`: nothing,
/// a value, or the error it stopped at.
pub uninterp spec fn first_value_of(line: Seq<char>) -> Option<
    Result<serde_json::Value, serde_json::Error>,
>;

/// What reading the payload came to, as the outcome of a poll.
pub open spec fn outcome_of(read: Option<Result<serde_json::Value, serde_json::Error>>) -> Result<
    serde_json::Value,
    PollError,
> {
    match read {
        None => Err(PollError::NoJson),
        Some(Err(_)) => Err(PollError::Malformed),
        Some(Ok(value)) => Ok(value),
    }
}

/// What a page of the provider comes to: the value that its first line with
/// the marker assigns, or why there is none.
pub open spec fn page_outcome(text: Seq<char>) -> Result<serde_json::Value, PollError> {
    match riders_payload(text) {
        None => Err(PollError::MissingLine),
        Some(found) => outcome_of(first_value_of(found)),
    }
}

/// Trimming the end leaves no white space at the end.
pub proof fn trim_end_ends_clean(s: Seq<char>)
    ensures
        trim_end(s).len() > 0 ==> !is_space(trim_end(s).last()),
    decreases s.len(),
{
    if s.len() > 0 && is_space(s.last()) {
        trim_end_ends_clean(s.drop_last());
    }
}

/// What a line assigns is never blank: it ends in something that is no white
/// space.
pub proof fn line_payload_is_not_blank(line: Seq<char>)
    ensures
        line_payload(line) matches Some(found) ==> found.len() > 0 && !is_space(found.last())
            && !is_blank(found),
{
    if let Some(found) = line_payload(line) {
        let text = trimmed(line);
        reveal_strlit("var ridersArray = ");
        trim_end_ends_clean(trim_start(line));
        assert(marker().len() == 18);
        assert(marker()[17] == ' ');
        assert(text.subrange(0, 18) == marker());
        if text.len() == 18 {
            assert(text.last() == text.subrange(0, 18)[17]);
        }
        assert(found.last() == text.last());
        assert(!is_json_space(found[found.len() - 1]));
    }
}

/// What a page assigns to the riders is never blank.
pub proof fn payload_is_not_blank(text: Seq<char>, from: int)
    ensures
        payload_from(text, from) matches Some(found) ==> found.len() > 0 && !is_blank(found),
    decreases text.len() + 1 - from,
{
    if 0 <= from < text.len() {
        let end = line_end(text, from);
        line_end_is_within(text, from);
        line_payload_is_not_blank(text.subrange(from, end));
        if line_payload(text.subrange(from, end)) is None {
            payload_is_not_blank(text, end + 1);
        }
    }
}

/// Reads the first value of `line` with the stream deserializer of
/// `serde_json`, whose answer depends on the line alone. There is no value to
/// read exactly when the line holds nothing but white space; whether a value
/// is well-formed is the parser's to say.
#[verifier::external_body]
fn first_value(line: &str) -> (r: Option<Result<serde_json::Value, serde_json::Error>>)
    ensures
        r == first_value_of(line@),
        r is None <==> is_blank(line@),
{
    serde_json::StreamDeserializer::new(serde_json::de::StrRead::new(line)).next()
}

/// What reading the payload came to, as the outcome of a poll.
pub fn read_outcome(read: Option<Result<serde_json::Value, serde_json::Error>>) -> (r: Result<
    serde_json::Value,
    PollError,
>)
    ensures
        r == outcome_of(read),
{
    match read {
        None => Err(PollError::NoJson),
        Some(Err(_)) => Err(PollError::Malformed),
        Some(Ok(value)) => Ok(value),
    }
}

/// Reads the riders out of a page of the provider. Without a line that
/// assigns them the page is refused as `MissingLine`; otherwise the parser
/// decides between the value and `Malformed`, for what a line assigns is never
/// nothing.
pub fn parse_page(text: &str) -> (r: Result<serde_json::Value, PollError>)
    ensures
        r == page_outcome(text@),
        r is Err ==> r->Err_0 != PollError::NoJson,
        r == Err::<serde_json::Value, PollError>(PollError::MissingLine) <==> riders_payload(text@)
            is None,
{
    proof {
        payload_is_not_blank(text@, 0);
    }
    match find_payload(text) {
        None => Err(PollError::MissingLine),
        Some(found) => read_outcome(first_value(found.as_str())),
    }
}

/// Where the live page of a race is fetched from.
pub open spec fn live_url_of(race: Seq<char>) -> Seq<char> {
    "https://www2.followmychallenge.com/live/"@ + race + "/"@
}

/// The two halves of a polling cycle.
#[derive(Debug, Clone, Copy, PartialEq, Eq, Structural)]
pub enum Phase {
    /// A fetch is due or under way.
    Fetching,
    /// The fetch is over; the pause before the next one is due or under way.
    Sleeping,
}

/// What the task that runs a poller has to do next.
#[derive(Debug, Clone, Copy, PartialEq, Eq, Structural)]
pub enum PollerAction {
    /// Fetch the page and report what came of it.
    Fetch,
    /// Pause for so many seconds and report back.
    Sleep(u64),
}

/// The state of the task that keeps the snapshot of one race fresh.
#[derive(Debug)]
pub struct RacePoller {
    url: String,
    phase: Phase,
    published: Update<serde_json::Value>,
}

impl RacePoller {
    /// Where the page is fetched from.
    pub closed spec fn url_spec(&self) -> Seq<char> {
        self.url@
    }

    /// The half of the cycle that the poller is in.
    pub closed spec fn phase(&self) -> Phase {
        self.phase
    }

    /// The value that subscribers see.
    pub closed spec fn published(&self) -> Update<serde_json::Value> {
        self.published
    }

    /// Where the page is fetched from.
    pub fn url(&self) -> (r: &str)
        ensures
            r@ == self.url_spec(),
    {
        self.url.as_str()
    }

    /// The value that subscribers see.
    pub fn current(&self) -> (r: &Update<serde_json::Value>)
        ensures
            *r == self.published(),
    {
        &self.published
    }

    /// What is to be done next: a fetch, or the pause that follows every
    /// fetch, always of the same length.
    pub fn next(&self) -> (action: PollerAction)
        ensures
            action == match self.phase() {
                Phase::Fetching => PollerAction::Fetch,
                Phase::Sleeping => PollerAction::Sleep(SLEEP_SECONDS),
            },
    {
        match self.phase {
            Phase::Fetching => PollerAction::Fetch,
            Phase::Sleeping => PollerAction::Sleep(SLEEP_SECONDS),
        }
    }

    /// Takes in what a fetch came to. A snapshot is published, overwriting the
    /// one before; a failure leaves what subscribers see as it was. Either way
    /// the pause is due next. While the poller pauses the call changes
    /// nothing. Returns whether a new value was published.
    pub fn fetched(&mut self, outcome: Result<serde_json::Value, PollError>) -> (news: bool)
        ensures
            final(self).url_spec() == old(self).url_spec(),
            final(self).phase() == Phase::Sleeping,
            news == (old(self).phase() == Phase::Fetching && outcome is Ok),
            final(self).published() == if news {
                Update::New(outcome->Ok_0)
            } else {
                old(self).published()
            },
            old(self).published() is New ==> final(self).published() is New,
    {
        match self.phase {
            Phase::Sleeping => false,
            Phase::Fetching => {
                self.phase = Phase::Sleeping;
                match outcome {
                    Ok(snapshot) => {
                        self.published = Update::New(snapshot);
                        true
                    },
                    Err(_) => false,
                }
            },
        }
    }

    /// Takes in that the pause is over: a fetch is due next.
    pub fn woke(&mut self)
        ensures
            final(self).url_spec() == old(self).url_spec(),
            final(self).published() == old(self).published(),
            final(self).phase() == Phase::Fetching,
    {
        self.phase = Phase::Fetching;
    }
}

/// Starts polling race `race`: the page of the race is to be fetched first,
/// and until a fetch succeeds subscribers see `Pending`.
pub fn subscribe(race: &str) -> (poller: RacePoller)
    ensures
        poller.url_spec() == live_url_of(race@),
        poller.phase() == Phase::Fetching,
        poller.published() is Pending,
{
    let mut url = String::from_str("https://www2.followmychallenge.com/live/");
    url.append(race);
    url.append("/");
    RacePoller { url, phase: Phase::Fetching, published: Update::Pending }
}

} // verus!
