//! The nixpkgs search backend: the request the tool sends, what a reply
//! stands for, and the protocol that finds the backend's current index when
//! the one the tool knows has gone.

use vstd::prelude::*;
use crate::package::{Package, PackageView, package_views};
use crate::text::{
    blank, dec, dec_int, decimal, decimal_signed, has_substring, is_blank, contains, trim,
    trimmed, parse_u32, parse_u32_spec, parse_i32, parse_i32_spec,
};

verus! {

/// A hexadecimal digit in lower case.
pub open spec fn hex_digit(d: nat) -> char {
    if d < 10 {
        crate::text::digit_char(d)
    } else if d == 10 {
        'a'
    } else if d == 11 {
        'b'
    } else if d == 12 {
        'c'
    } else if d == 13 {
        'd'
    } else if d == 14 {
        'e'
    } else {
        'f'
    }
}

/// How a character is written inside a JSON string: a quote, a backslash
/// and the five control characters with short escapes get those, any other
/// control character below U+0020 is written `\u00` and two lower-case hex
/// digits, and every other character stands for itself.
pub open spec fn escaped_char(c: char) -> Seq<char> {
    if c == '"' {
        seq!['\\', '"']
    } else if c == '\\' {
        seq!['\\', '\\']
    } else if c == '\u{8}' {
        seq!['\\', 'b']
    } else if c == '\t' {
        seq!['\\', 't']
    } else if c == '\n' {
        seq!['\\', 'n']
    } else if c == '\u{c}' {
        seq!['\\', 'f']
    } else if c == '\r' {
        seq!['\\', 'r']
    } else if (c as u32) < 0x20 {
        seq!['\\', 'u', '0', '0', hex_digit((c as u32 / 16) as nat), hex_digit((c as u32 % 16) as nat)]
    } else {
        seq![c]
    }
}

/// The characters of `s`, each as written inside a JSON string.
pub open spec fn escaped(s: Seq<char>) -> Seq<char>
    decreases s.len(),
{
    if s.len() == 0 {
        Seq::empty()
    } else {
        escaped_char(s[0]) + escaped(s.drop_first())
    }
}

/// The text of `s` as a JSON string literal: between quotes, escaped.
pub open spec fn json_string(s: Seq<char>) -> Seq<char> {
    seq!['"'] + escaped(s) + seq!['"']
}

/// Calls `serde_json::to_string` on a string slice: the result is the JSON
/// string literal `json_string` describes. The function's source writes a
/// quote, each run of bytes that need no escape unchanged, for each byte that
/// does (quote, backslash, bytes below 0x20) the escape of its table, and a
/// closing quote; serializing a `str` into a byte vector cannot fail.
#[verifier::external_body]
fn json_encode_str(s: &str) -> (r: String)
    ensures
        r@ == json_string(s@),
{
    match serde_json::to_string(s) {
        Ok(t) => t,
        Err(_) => String::new(),
    }
}

/// The value of a hexadecimal digit, or -1 for another character.
pub open spec fn hex_value(c: char) -> int {
    if '0' <= c && c <= '9' {
        c as u32 - '0' as u32
    } else if 'a' <= c && c <= 'f' {
        c as u32 - 'a' as u32 + 10
    } else if 'A' <= c && c <= 'F' {
        c as u32 - 'A' as u32 + 10
    } else {
        -1
    }
}

/// The characters that the inside of a JSON string literal stands for, as a
/// JSON reader decodes its escapes.
pub open spec fn unescaped(e: Seq<char>) -> Seq<char>
    decreases e.len(),
{
    if e.len() == 0 {
        Seq::empty()
    } else if e[0] == '\\' && e.len() >= 2 {
        let k = e[1];
        if k == 'u' && e.len() >= 6 {
            seq![(hex_value(e[2]) * 4096 + hex_value(e[3]) * 256 + hex_value(e[4]) * 16 + hex_value(e[5])) as char]
                + unescaped(e.skip(6))
        } else if k == '"' || k == '\\' || k == '/' {
            seq![k] + unescaped(e.skip(2))
        } else if k == 'b' {
            seq!['\u{8}'] + unescaped(e.skip(2))
        } else if k == 't' {
            seq!['\t'] + unescaped(e.skip(2))
        } else if k == 'n' {
            seq!['\n'] + unescaped(e.skip(2))
        } else if k == 'f' {
            seq!['\u{c}'] + unescaped(e.skip(2))
        } else if k == 'r' {
            seq!['\r'] + unescaped(e.skip(2))
        } else {
            seq![e[0]] + unescaped(e.drop_first())
        }
    } else {
        seq![e[0]] + unescaped(e.drop_first())
    }
}

proof fn lemma_hex_digit(d: nat)
    requires
        d < 16,
    ensures
        hex_value(hex_digit(d)) == d,
{
    if d < 10 {
        crate::text::lemma_digit_char(d);
    }
}

proof fn lemma_unescape_char(c: char, r: Seq<char>)
    ensures
        unescaped(escaped_char(c) + r) == seq![c] + unescaped(r),
{
    let e = escaped_char(c) + r;
    let n = escaped_char(c).len() as int;
    assert(e.skip(n) =~= r);
    if c == '"' || c == '\\' || c == '\u{8}' || c == '\t' || c == '\n' || c == '\u{c}' || c == '\r' {
        assert(e[0] == '\\');
        assert(e[1] == escaped_char(c)[1]);
    } else if (c as u32) < 0x20 {
        let v = c as u32;
        lemma_hex_digit((v / 16) as nat);
        lemma_hex_digit((v % 16) as nat);
        assert(e[0] == '\\');
        assert(e[1] == 'u');
        assert(e[2] == '0' && e[3] == '0');
        assert(e[4] == hex_digit((v / 16) as nat));
        assert(e[5] == hex_digit((v % 16) as nat));
        assert(hex_value(e[2]) * 4096 + hex_value(e[3]) * 256 + hex_value(e[4]) * 16 + hex_value(
            e[5],
        ) == v as int);
    } else {
        assert(e[0] == c);
        assert(e.drop_first() =~= r);
    }
}

/// Inside the JSON string literal of a text, the escapes decode back to the
/// text: the request body carries the query exactly.
pub proof fn lemma_json_string_decodes(s: Seq<char>)
    ensures
        json_string(s) == seq!['"'] + escaped(s) + seq!['"'],
        unescaped(escaped(s)) == s,
    decreases s.len(),
{
    if s.len() == 0 {
        assert(escaped(s) =~= Seq::<char>::empty());
    } else {
        lemma_json_string_decodes(s.drop_first());
        lemma_unescape_char(s[0], escaped(s.drop_first()));
        assert(seq![s[0]] + s.drop_first() =~= s);
    }
}

/// The search request body for `query` (as its JSON string literal `q`) and
/// at most `size` hits: a package-type filter and two multi-field matches.
pub open spec fn query_document(q: Seq<char>, size: nat) -> Seq<char> {
    "{\"from\":0,\"query\":{\"bool\":{\"filter\":[{\"term\":{\"type\":{\"value\":\"package\"}}}],\"must\":[{\"dis_max\":{\"queries\":[{\"multi_match\":{\"analyzer\":\"whitespace\",\"fields\":[\"package_attr_name^9\",\"package_attr_name.*^5.4\",\"package_pname^6\",\"package_pname.*^3.6\",\"package_description^1.3\",\"package_longDescription^1\"],\"operator\":\"and\",\"query\":"@
        + q
        + ",\"type\":\"cross_fields\"}},{\"multi_match\":{\"analyzer\":\"whitespace\",\"fields\":[\"package_programs^7.5\"],\"fuzziness\":1,\"operator\":\"and\",\"query\":"@
        + q + ",\"type\":\"best_fields\"}}],\"tie_breaker\":0.7}}]}},\"size\":"@ + dec(size)
        + "}"@
}

/// The JSON body of a search for `query` returning at most `size` hits.
pub fn build_query(query: &str, size: usize) -> (r: String)
    ensures
        r@ == query_document(json_string(query@), size as nat),
{
    let q = json_encode_str(query);
    let mut r = String::from_str(
        "{\"from\":0,\"query\":{\"bool\":{\"filter\":[{\"term\":{\"type\":{\"value\":\"package\"}}}],\"must\":[{\"dis_max\":{\"queries\":[{\"multi_match\":{\"analyzer\":\"whitespace\",\"fields\":[\"package_attr_name^9\",\"package_attr_name.*^5.4\",\"package_pname^6\",\"package_pname.*^3.6\",\"package_description^1.3\",\"package_longDescription^1\"],\"operator\":\"and\",\"query\":",
    );
    r.append(q.as_str());
    r.append(
        ",\"type\":\"cross_fields\"}},{\"multi_match\":{\"analyzer\":\"whitespace\",\"fields\":[\"package_programs^7.5\"],\"fuzziness\":1,\"operator\":\"and\",\"query\":",
    );
    r.append(q.as_str());
    r.append(",\"type\":\"best_fields\"}}],\"tie_breaker\":0.7}}]}},\"size\":");
    let n = decimal(size as u64);
    r.append(n.as_str());
    r.append("}");
    r
}

/// The address of the search endpoint of index `schema` for `channel`.
pub open spec fn search_url_of(schema: Seq<char>, channel: Seq<char>) -> Seq<char> {
    "https://search.nixos.org/backend/latest-"@ + schema + "-nixos-"@ + channel + "/_search"@
}

/// The address of index `schema` for `channel` itself.
pub open spec fn index_url_of(schema: Seq<char>, channel: Seq<char>) -> Seq<char> {
    "https://search.nixos.org/backend/latest-"@ + schema + "-nixos-"@ + channel
}

fn index_url(schema: &str, channel: &str) -> (r: String)
    ensures
        r@ == index_url_of(schema@, channel@),
{
    let mut r = String::from_str("https://search.nixos.org/backend/latest-");
    r.append(schema);
    r.append("-nixos-");
    r.append(channel);
    r
}

fn search_url(schema: &str, channel: &str) -> (r: String)
    ensures
        r@ == search_url_of(schema@, channel@),
{
    let mut r = index_url(schema, channel);
    r.append("/_search");
    r
}

/// The index number known to work when no cached one is at hand.
pub open spec fn default_schema() -> Seq<char> {
    "48"@
}

/// The channel searched when none is named.
pub open spec fn default_channel() -> Seq<char> {
    "unstable"@
}

/// The index number that a cache file with text `text` holds: its trimmed
/// text when that is an unsigned 32-bit number.
pub open spec fn cached_schema_of(text: Seq<char>) -> Option<Seq<char>> {
    if parse_u32_spec(trimmed(text)).is_some() {
        Some(trimmed(text))
    } else {
        None
    }
}

/// The index number held by a cache file with the given text, if it holds one.
pub fn cached_schema(text: &str) -> (r: Option<String>)
    ensures
        match r {
            Some(s) => cached_schema_of(text@) == Some(s@),
            None => cached_schema_of(text@).is_none(),
        },
{
    let t = trim(text);
    match parse_u32(t) {
        Some(_) => Some(String::from_str(t)),
        None => None,
    }
}

/// The text that the cache file gets for index `schema`.
pub open spec fn schema_file_text(schema: Seq<char>) -> Seq<char> {
    schema.push('\n')
}

/// The text to write to the cache file for index `schema`.
pub fn schema_file_contents(schema: &str) -> (r: String)
    ensures
        r@ == schema_file_text(schema@),
{
    let mut r = String::from_str(schema);
    proof {
        reveal_strlit("\n");
    }
    r.append("\n");
    r
}

/// The index numbers tried, in order, when index `cur` has gone: the five
/// above it from the farthest down, then up to five below it, none below 1.
pub open spec fn candidates_of(cur: int) -> Seq<int> {
    let below = if cur - 1 < 0 {
        0
    } else if cur - 1 > 5 {
        5
    } else {
        cur - 1
    };
    Seq::new(5, |i: int| cur + 5 - i) + Seq::new(below as nat, |i: int| cur - 1 - i)
}

/// The index numbers to try in order when index `cur` has gone.
pub fn schema_candidates(cur: i32) -> (r: Vec<i32>)
    requires
        cur <= i32::MAX - 5,
        cur > i32::MIN,
    ensures
        r@.map_values(|v: i32| v as int) == candidates_of(cur as int),
{
    let mut r: Vec<i32> = Vec::new();
    let mut k: i32 = 5;
    while k >= 1
        invariant
            0 <= k <= 5,
            cur <= i32::MAX - 5,
            r@.len() == 5 - k,
            forall|i: int| 0 <= i < r@.len() ==> r@[i] == cur + 5 - i,
        decreases k,
    {
        r.push(cur + k);
        k = k - 1;
    }
    let below: i32 = if cur - 1 < 0 {
        0
    } else if cur - 1 > 5 {
        5
    } else {
        cur - 1
    };
    let mut j: i32 = 1;
    while j <= below
        invariant
            1 <= j <= below + 1,
            0 <= below <= 5,
            below <= cur - 1 || below == 0,
            cur > i32::MIN,
            r@.len() == 5 + j - 1,
            forall|i: int| 0 <= i < 5 ==> r@[i] == cur + 5 - i,
            forall|i: int| 5 <= i < r@.len() ==> r@[i] == cur - 1 - (i - 5),
        decreases below + 1 - j,
    {
        r.push(cur - j);
        j = j + 1;
    }
    assert(r@.map_values(|v: i32| v as int) =~= candidates_of(cur as int));
    r
}

/// A hit of a search reply: the package's attribute name, version and
/// description as the backend sent them.
pub struct ReplyHit {
    pub attr_name: String,
    pub version: Option<String>,
    pub description: Option<String>,
}

/// The error part of a search reply: its `reason` when that is a string.
pub struct ReplyError {
    pub reason: Option<String>,
}

/// A search reply of the backend: an error, or the total number of matches
/// and the hits sent.
pub struct SearchReply {
    pub error: Option<ReplyError>,
    pub total: u64,
    pub hits: Vec<ReplyHit>,
}

/// The package a hit stands for; an absent version or description is empty.
pub open spec fn hit_package(h: ReplyHit) -> PackageView {
    PackageView {
        attr_name: h.attr_name@,
        version: match h.version {
            Some(v) => v@,
            None => Seq::empty(),
        },
        description: match h.description {
            Some(d) => d@,
            None => Seq::empty(),
        },
    }
}

/// The error text of a reply with an error: its reason, or a generic text.
pub open spec fn reply_error_text(e: ReplyError) -> Seq<char> {
    match e.reason {
        Some(r) => r@,
        None => "elasticsearch error"@,
    }
}

/// The results of a finished search.
pub struct SearchResults {
    pub packages: Vec<Package>,
    pub elapsed_ms: u64,
    pub total: u64,
}

/// `r` is what `reply`, received after `ms` milliseconds, stands for.
pub open spec fn reply_outcome(reply: SearchReply, ms: u64, r: Result<SearchResults, String>) -> bool {
    match reply.error {
        Some(e) => r matches Err(m) && m@ == reply_error_text(e),
        None => r matches Ok(res) && package_views(res.packages@) == reply.hits@.map_values(
            |h: ReplyHit| hit_package(h),
        ) && res.total == reply.total && res.elapsed_ms == ms,
    }
}

fn hit_to_package(h: ReplyHit) -> (p: Package)
    ensures
        p@ == hit_package(h),
{
    Package {
        attr_name: h.attr_name,
        version: match h.version {
            Some(v) => v,
            None => String::new(),
        },
        description: match h.description {
            Some(d) => d,
            None => String::new(),
        },
    }
}

/// What a search reply, received after `elapsed_ms` milliseconds, stands
/// for: its error, or its packages and total.
pub fn interpret_reply(reply: SearchReply, elapsed_ms: u64) -> (r: Result<SearchResults, String>)
    ensures
        reply_outcome(reply, elapsed_ms, r),
{
    let ghost orig = reply;
    match reply.error {
        Some(e) => match e.reason {
            Some(reason) => Err(reason),
            None => Err(String::from_str("elasticsearch error")),
        },
        None => {
            let total = reply.total;
            let mut hits = reply.hits;
            let ghost all = hits@;
            let mut rev: Vec<Package> = Vec::new();
            while hits.len() > 0
                invariant
                    all.len() == hits@.len() + rev@.len(),
                    hits@ == all.take(hits@.len() as int),
                    forall|i: int|
                        0 <= i < rev@.len() ==> (#[trigger] rev@[i])@ == hit_package(
                            all[all.len() - 1 - i],
                        ),
                decreases hits.len(),
            {
                let h = hits.pop().unwrap();
                assert(all.take(hits@.len() as int) =~= all.take((hits@.len() + 1) as int).drop_last());
                rev.push(hit_to_package(h));
            }
            let mut packages: Vec<Package> = Vec::new();
            while rev.len() > 0
                invariant
                    all.len() == packages@.len() + rev@.len(),
                    forall|i: int|
                        0 <= i < rev@.len() ==> (#[trigger] rev@[i])@ == hit_package(
                            all[all.len() - 1 - i],
                        ),
                    forall|i: int|
                        0 <= i < packages@.len() ==> (#[trigger] packages@[i])@ == hit_package(
                            all[i],
                        ),
                decreases rev.len(),
            {
                let p = rev.pop().unwrap();
                packages.push(p);
            }
            assert(package_views(packages@) =~= all.map_values(|h: ReplyHit| hit_package(h)));
            Ok(SearchResults { packages, elapsed_ms, total })
        },
    }
}

} // verus!

verus! {

/// The index and channel that searches go to.
pub struct SearchClient {
    schema: String,
    channel: String,
}

/// Where a search stands: its first request is out, indexes are being
/// probed after the known one had gone (`reason` is the failure, `next` the
/// candidate asked about), the retry on a found index is out, or it is over.
pub enum SearchStage {
    Attempt,
    Probing { reason: String, candidates: Vec<i32>, next: usize },
    Retry,
    Finished,
}

/// A search under way: its request body and where it stands.
pub struct SearchFlow {
    pub body: String,
    pub stage: SearchStage,
}

/// What a search needs done next: a search request (after the index number
/// `save_schema` was written to the cache file), a probe of an index, or
/// nothing more, with its result.
pub enum SearchStep {
    Post { url: String, body: String, save_schema: Option<String> },
    Head { url: String },
    Finish(Result<SearchResults, String>),
}

/// What came back: the reply to a search request (or why there was none)
/// and how long it took, or whether a probed index exists.
pub enum SearchEvent {
    Replied { reply: Result<SearchReply, String>, elapsed_ms: u64 },
    Probed { found: bool },
}

/// A search's stage is consistent: a probe is about one of its candidates.
pub open spec fn flow_ok(f: SearchFlow) -> bool {
    match f.stage {
        SearchStage::Probing { candidates, next, .. } => next < candidates@.len()
            && candidates@.len() <= 10,
        _ => true,
    }
}

/// How far a search is from its end: each answer brings it closer, so a
/// search ends after at most a dozen requests and probes.
pub open spec fn flow_rank(f: SearchFlow) -> nat {
    match f.stage {
        SearchStage::Attempt => 12,
        SearchStage::Probing { candidates, next, .. } => if next < candidates@.len() {
            (candidates@.len() - next + 1) as nat
        } else {
            1
        },
        SearchStage::Retry => 1,
        SearchStage::Finished => 0,
    }
}

/// `ev` is what the stage of `f` waits for.
pub open spec fn event_fits(f: SearchFlow, ev: SearchEvent) -> bool {
    match f.stage {
        SearchStage::Attempt => ev is Replied,
        SearchStage::Retry => ev is Replied,
        SearchStage::Probing { .. } => ev is Probed,
        SearchStage::Finished => false,
    }
}

/// The failure a reply stands for, if it stands for one.
pub open spec fn failure_text(reply: Result<SearchReply, String>) -> Option<Seq<char>> {
    match reply {
        Err(m) => Some(m@),
        Ok(r) => match r.error {
            Some(e) => Some(reply_error_text(e)),
            None => None,
        },
    }
}

/// `r` is what a reply (or the failure to get one), after `ms` milliseconds,
/// stands for.
pub open spec fn outcome_of(
    reply: Result<SearchReply, String>,
    ms: u64,
    r: Result<SearchResults, String>,
) -> bool {
    match reply {
        Err(m) => r matches Err(x) && x@ == m@,
        Ok(rep) => reply_outcome(rep, ms, r),
    }
}

/// `ev` reports a failure saying that the searched index is missing.
pub open spec fn asks_for_probe(ev: SearchEvent) -> bool {
    match ev {
        SearchEvent::Replied { reply, .. } => match failure_text(reply) {
            Some(f) => has_substring(f, "no such index"@),
            None => false,
        },
        _ => false,
    }
}

impl SearchEvent {
    /// Whether this reports a failure saying that the searched index is
    /// missing, the failure after which neighbouring indexes are probed.
    pub fn reports_missing_index(&self) -> (b: bool)
        ensures
            b == asks_for_probe(*self),
    {
        proof {
            reveal_strlit("elasticsearch error");
        }
        match self {
            SearchEvent::Replied { reply, .. } => match reply {
                Err(m) => contains(m.as_str(), "no such index"),
                Ok(r) => match &r.error {
                    Some(e) => match &e.reason {
                        Some(reason) => contains(reason.as_str(), "no such index"),
                        None => contains("elasticsearch error", "no such index"),
                    },
                    None => false,
                },
            },
            SearchEvent::Probed { .. } => false,
        }
    }
}

/// An index number whose neighbours can be computed without overflow.
pub open spec fn schema_probe_safe(schema: Seq<char>) -> bool {
    match parse_i32_spec(schema) {
        Some(cur) => cur <= i32::MAX - 5 && cur > i32::MIN,
        None => true,
    }
}

/// The index numbers tried as candidates, as integers.
pub open spec fn candidate_values(v: Vec<i32>) -> Seq<int> {
    v@.map_values(|c: i32| c as int)
}

impl SearchClient {
    /// The index number searched.
    pub closed spec fn schema_text(&self) -> Seq<char> {
        self.schema@
    }

    /// The channel searched.
    pub closed spec fn channel_text(&self) -> Seq<char> {
        self.channel@
    }

    /// A client for `channel` (unstable when none), on the index number that
    /// the cache file text `cached` holds, or on the default one.
    pub fn new(channel: Option<String>, cached: Option<String>) -> (c: SearchClient)
        ensures
            c.schema_text() == match cached {
                Some(t) => match cached_schema_of(t@) {
                    Some(s) => s,
                    None => default_schema(),
                },
                None => default_schema(),
            },
            c.channel_text() == match channel {
                Some(ch) => ch@,
                None => default_channel(),
            },
    {
        let schema = match cached {
            Some(t) => match cached_schema(t.as_str()) {
                Some(s) => s,
                None => String::from_str("48"),
            },
            None => String::from_str("48"),
        };
        let channel = match channel {
            Some(ch) => ch,
            None => String::from_str("unstable"),
        };
        SearchClient { schema, channel }
    }

    /// The channel searched.
    pub fn channel(&self) -> (r: &str)
        ensures
            r@ == self.channel_text(),
    {
        self.channel.as_str()
    }

    /// Searches `channel` from now on.
    pub fn set_channel(&mut self, channel: String)
        ensures
            final(self).channel_text() == channel@,
            final(self).schema_text() == old(self).schema_text(),
    {
        self.channel = channel;
    }

    /// Whether the neighbours of the searched index number can be computed:
    /// the condition under which a missing index can be probed.
    pub fn neighbours_fit(&self) -> (b: bool)
        ensures
            b == schema_probe_safe(self.schema_text()),
    {
        match parse_i32(self.schema.as_str()) {
            Some(cur) => cur <= i32::MAX - 5 && cur > i32::MIN,
            None => true,
        }
    }

    /// Starts a search for `query` with at most `size` hits: a blank query
    /// finishes at once with nothing found, any other is sent to the search
    /// endpoint of the known index.
    pub fn start_search(&self, query: &str, size: usize) -> (r: (SearchFlow, SearchStep))
        ensures
            flow_ok(r.0),
            blank(query@) ==> {
                &&& r.0.stage is Finished
                &&& r.1 matches SearchStep::Finish(Ok(res))
                &&& res.packages@.len() == 0
                &&& res.elapsed_ms == 0
                &&& res.total == 0
            },
            !blank(query@) ==> {
                &&& r.0.stage is Attempt
                &&& r.0.body@ == query_document(json_string(query@), size as nat)
                &&& r.1 matches SearchStep::Post { url, body, save_schema }
                &&& url@ == search_url_of(self.schema_text(), self.channel_text())
                &&& body == r.0.body
                &&& save_schema is None
            },
    {
        if is_blank(query) {
            let done = SearchResults { packages: Vec::new(), elapsed_ms: 0, total: 0 };
            return (
                SearchFlow { body: String::new(), stage: SearchStage::Finished },
                SearchStep::Finish(Ok(done)),
            );
        }
        let body = build_query(query, size);
        let url = search_url(self.schema.as_str(), self.channel.as_str());
        let step = SearchStep::Post { url, body: body.clone(), save_schema: None };
        (SearchFlow { body, stage: SearchStage::Attempt }, step)
    }

    /// Takes what came back for a search and says what to do next. A failure
    /// that says the index is missing starts probing the neighbouring index
    /// numbers; the first that exists becomes the searched index and the
    /// search is sent once more.
    pub fn resume_search(&mut self, flow: &mut SearchFlow, event: SearchEvent) -> (step:
        SearchStep)
        requires
            flow_ok(*old(flow)),
            event_fits(*old(flow), event),
            old(flow).stage is Attempt && asks_for_probe(event) ==> schema_probe_safe(
                old(self).schema_text(),
            ),
        ensures
            flow_ok(*final(flow)),
            final(flow).body == old(flow).body,
            flow_rank(*final(flow)) < flow_rank(*old(flow)),
            search_resumed(*old(self), *old(flow), event, *final(self), *final(flow), step),
    {
        let mut stage = SearchStage::Finished;
        std::mem::swap(&mut stage, &mut flow.stage);
        match stage {
            SearchStage::Attempt => {
                let (reply, ms) = match event {
                    SearchEvent::Replied { reply, elapsed_ms } => (reply, elapsed_ms),
                    SearchEvent::Probed { .. } => {
                        return SearchStep::Finish(Err(String::new()));
                    },
                };
                let outcome = match reply {
                    Err(m) => Err(m),
                    Ok(rep) => interpret_reply(rep, ms),
                };
                match outcome {
                    Ok(res) => SearchStep::Finish(Ok(res)),
                    Err(m) => {
                        if !contains(m.as_str(), "no such index") {
                            return SearchStep::Finish(Err(m));
                        }
                        match parse_i32(self.schema.as_str()) {
                            None => SearchStep::Finish(Err(m)),
                            Some(cur) => {
                                let candidates = schema_candidates(cur);
                                assert(candidate_values(candidates).len() == candidates@.len());
                                let first = decimal_signed(candidates[0] as i64);
                                let url = index_url(first.as_str(), self.channel.as_str());
                                flow.stage = SearchStage::Probing { reason: m, candidates, next: 0 };
                                SearchStep::Head { url }
                            },
                        }
                    },
                }
            },
            SearchStage::Probing { reason, candidates, next } => {
                assert(next < candidates@.len());
                let more = candidates.len() - next > 1;
                let found = match event {
                    SearchEvent::Probed { found } => found,
                    SearchEvent::Replied { .. } => {
                        return SearchStep::Finish(Err(reason));
                    },
                };
                if found {
                    let schema = decimal_signed(candidates[next] as i64);
                    self.schema = schema.clone();
                    let url = search_url(self.schema.as_str(), self.channel.as_str());
                    flow.stage = SearchStage::Retry;
                    SearchStep::Post { url, body: flow.body.clone(), save_schema: Some(schema) }
                } else if more {
                    let cand = decimal_signed(candidates[next + 1] as i64);
                    let url = index_url(cand.as_str(), self.channel.as_str());
                    flow.stage = SearchStage::Probing { reason, candidates, next: next + 1 };
                    SearchStep::Head { url }
                } else {
                    SearchStep::Finish(Err(reason))
                }
            },
            SearchStage::Retry => {
                match event {
                    SearchEvent::Replied { reply, elapsed_ms } => {
                        let outcome = match reply {
                            Err(m) => Err(m),
                            Ok(rep) => interpret_reply(rep, elapsed_ms),
                        };
                        SearchStep::Finish(outcome)
                    },
                    SearchEvent::Probed { .. } => SearchStep::Finish(Err(String::new())),
                }
            },
            SearchStage::Finished => SearchStep::Finish(Err(String::new())),
        }
    }
}

/// `c1`, `f1` and `step` follow from `c0` and `f0` once `ev` came back.
pub open spec fn search_resumed(
    c0: SearchClient,
    f0: SearchFlow,
    ev: SearchEvent,
    c1: SearchClient,
    f1: SearchFlow,
    step: SearchStep,
) -> bool {
    match f0.stage {
        SearchStage::Attempt => match ev {
            SearchEvent::Replied { reply, elapsed_ms } => match failure_text(reply) {
                None => {
                    &&& step matches SearchStep::Finish(r)
                    &&& outcome_of(reply, elapsed_ms, r)
                    &&& f1.stage is Finished
                    &&& c1 == c0
                },
                Some(fail) => if has_substring(fail, "no such index"@) && parse_i32_spec(
                    c0.schema_text(),
                ).is_some() {
                    let cands = candidates_of(parse_i32_spec(c0.schema_text()).unwrap() as int);
                    &&& f1.stage matches SearchStage::Probing { reason, candidates, next }
                    &&& reason@ == fail
                    &&& candidate_values(candidates) == cands
                    &&& next == 0
                    &&& step matches SearchStep::Head { url }
                    &&& url@ == index_url_of(dec_int(cands[0]), c0.channel_text())
                    &&& c1 == c0
                } else {
                    &&& step matches SearchStep::Finish(Err(m))
                    &&& m@ == fail
                    &&& f1.stage is Finished
                    &&& c1 == c0
                },
            },
            _ => false,
        },
        SearchStage::Probing { reason, candidates, next } => match ev {
            SearchEvent::Probed { found } => {
                let cand = candidates@[next as int] as int;
                if found {
                    &&& c1.schema_text() == dec_int(cand)
                    &&& c1.channel_text() == c0.channel_text()
                    &&& f1.stage is Retry
                    &&& step matches SearchStep::Post { url, body, save_schema }
                    &&& url@ == search_url_of(dec_int(cand), c0.channel_text())
                    &&& body == f0.body
                    &&& save_schema matches Some(s) && s@ == dec_int(cand)
                } else if next + 1 < candidates@.len() {
                    &&& c1 == c0
                    &&& f1.stage == (SearchStage::Probing { reason, candidates, next: (next + 1) as usize })
                    &&& step matches SearchStep::Head { url }
                    &&& url@ == index_url_of(dec_int(candidates@[next + 1] as int), c0.channel_text())
                } else {
                    &&& c1 == c0
                    &&& f1.stage is Finished
                    &&& step matches SearchStep::Finish(Err(m))
                    &&& m == reason
                }
            },
            _ => false,
        },
        SearchStage::Retry => match ev {
            SearchEvent::Replied { reply, elapsed_ms } => {
                &&& step matches SearchStep::Finish(r)
                &&& outcome_of(reply, elapsed_ms, r)
                &&& f1.stage is Finished
                &&& c1 == c0
            },
            _ => false,
        },
        SearchStage::Finished => false,
    }
}

} // verus!

verus! {

/// An index number written to the cache file is read back from it.
pub proof fn lemma_schema_cache_round_trip(n: u32)
    ensures
        cached_schema_of(schema_file_text(dec(n as nat))) == Some(dec(n as nat)),
{
    let s = dec(n as nat);
    crate::text::lemma_parse_dec(n);
    let t = s.push('\n');
    assert(!crate::text::is_ws(s[0]));
    assert(t[0] == s[0]);
    assert(crate::text::trim_start(t) == t);
    assert(t.drop_last() =~= s);
    assert(crate::text::is_ws(t.last()));
    assert(crate::text::trim_end(t) == crate::text::trim_end(s));
    crate::text::lemma_trimmed_identity(s);
    assert(crate::text::trim_start(s) == s);
}

} // verus!

verus! {

/// A reply without an error stands for its hits, each turned into a package
/// with the hit's name, its version or an empty one, and its description or
/// an empty one, in the reply's order, with the reply's total and the time it
/// took; a reply with an error stands for its reason, or a generic text.
pub proof fn lemma_reply_packages(reply: SearchReply, ms: u64, r: Result<SearchResults, String>)
    requires
        reply_outcome(reply, ms, r),
    ensures
        reply.error is None ==> {
            &&& r matches Ok(res)
            &&& res.packages@.len() == reply.hits@.len()
            &&& res.total == reply.total
            &&& res.elapsed_ms == ms
            &&& forall|i: int|
                0 <= i < reply.hits@.len() ==> {
                    &&& (#[trigger] res.packages@[i]).attr_name@ == reply.hits@[i].attr_name@
                    &&& res.packages@[i].version@ == match reply.hits@[i].version {
                        Some(v) => v@,
                        None => Seq::<char>::empty(),
                    }
                    &&& res.packages@[i].description@ == match reply.hits@[i].description {
                        Some(d) => d@,
                        None => Seq::<char>::empty(),
                    }
                }
        },
        reply.error matches Some(e) ==> r matches Err(m) && m@ == match e.reason {
            Some(reason) => reason@,
            None => "elasticsearch error"@,
        },
{
    if reply.error is None {
        let res = r->Ok_0;
        let views = package_views(res.packages@);
        let hits = reply.hits@.map_values(|h: ReplyHit| hit_package(h));
        assert(views == hits);
        assert(views.len() == res.packages@.len());
        assert(hits.len() == reply.hits@.len());
        assert forall|i: int| 0 <= i < reply.hits@.len() implies {
            &&& (#[trigger] res.packages@[i]).attr_name@ == reply.hits@[i].attr_name@
            &&& res.packages@[i].version@ == match reply.hits@[i].version {
                Some(v) => v@,
                None => Seq::<char>::empty(),
            }
            &&& res.packages@[i].description@ == match reply.hits@[i].description {
                Some(d) => d@,
                None => Seq::<char>::empty(),
            }
        } by {
            assert(package_views(res.packages@)[i] == res.packages@[i]@);
            assert(reply.hits@.map_values(|h: ReplyHit| hit_package(h))[i] == hit_package(
                reply.hits@[i],
            ));
        }
    }
}

/// A search whose request (first or retried) gets a reply without an error
/// finishes with exactly that reply's hits as packages, in order, with the
/// reply's total and elapsed time, and leaves the client as it was.
pub proof fn lemma_success_finishes(
    c0: SearchClient,
    f0: SearchFlow,
    ev: SearchEvent,
    c1: SearchClient,
    f1: SearchFlow,
    step: SearchStep,
)
    requires
        f0.stage is Attempt || f0.stage is Retry,
        ev matches SearchEvent::Replied { reply: Ok(rep), .. } && rep.error is None,
        search_resumed(c0, f0, ev, c1, f1, step),
    ensures
        ev matches SearchEvent::Replied { reply: Ok(rep), elapsed_ms } && {
            &&& step matches SearchStep::Finish(Ok(res))
            &&& res.packages@.len() == rep.hits@.len()
            &&& res.total == rep.total
            &&& res.elapsed_ms == elapsed_ms
            &&& forall|i: int|
                0 <= i < rep.hits@.len() ==> {
                    &&& (#[trigger] res.packages@[i]).attr_name@ == rep.hits@[i].attr_name@
                    &&& res.packages@[i].version@ == match rep.hits@[i].version {
                        Some(v) => v@,
                        None => Seq::<char>::empty(),
                    }
                    &&& res.packages@[i].description@ == match rep.hits@[i].description {
                        Some(d) => d@,
                        None => Seq::<char>::empty(),
                    }
                }
        },
        f1.stage is Finished,
        c1 == c0,
{
    if let SearchEvent::Replied { reply: Ok(rep), elapsed_ms } = ev {
        if let SearchStep::Finish(r) = step {
            lemma_reply_packages(rep, elapsed_ms, r);
        }
    }
}

/// The request body ends with its "size" field: the text `"size":`, digits
/// that read back as the requested number of hits, and the closing brace.
pub proof fn lemma_query_size(q: Seq<char>, size: nat)
    ensures
        ({
            let doc = query_document(q, size);
            exists|i: int|
                0 <= i && i + 7 < doc.len() && #[trigger] doc.subrange(i, i + 7) == "\"size\":"@
                    && doc.last() == '}' && crate::text::all_digits(doc.subrange(i + 7, doc.len() - 1))
                    && crate::text::digits_value(doc.subrange(i + 7, doc.len() - 1)) == size
        }),
{
    reveal_strlit("\"size\":");
    reveal_strlit("}");
    let doc = query_document(q, size);
    let d = dec(size);
    crate::text::lemma_dec_digits(size);
    let head = "{\"from\":0,\"query\":{\"bool\":{\"filter\":[{\"term\":{\"type\":{\"value\":\"package\"}}}],\"must\":[{\"dis_max\":{\"queries\":[{\"multi_match\":{\"analyzer\":\"whitespace\",\"fields\":[\"package_attr_name^9\",\"package_attr_name.*^5.4\",\"package_pname^6\",\"package_pname.*^3.6\",\"package_description^1.3\",\"package_longDescription^1\"],\"operator\":\"and\",\"query\":"@
        + q
        + ",\"type\":\"cross_fields\"}},{\"multi_match\":{\"analyzer\":\"whitespace\",\"fields\":[\"package_programs^7.5\"],\"fuzziness\":1,\"operator\":\"and\",\"query\":"@
        + q + ",\"type\":\"best_fields\"}}],\"tie_breaker\":0.7}}]}},"@;
    assert(doc =~= head + "\"size\":"@ + d + "}"@) by {
        reveal_strlit(",\"type\":\"best_fields\"}}],\"tie_breaker\":0.7}}]}},\"size\":");
        reveal_strlit(",\"type\":\"best_fields\"}}],\"tie_breaker\":0.7}}]}},");
    }
    let i = head.len() as int;
    assert(doc.subrange(i, i + 7) =~= "\"size\":"@);
    assert(doc.subrange(i + 7, doc.len() - 1) =~= d);
    assert(doc.last() == '}');
}

} // verus!

verus! {

/// The index numbers probed when index `cur` has gone: first the five
/// above it, from the farthest down to the nearest, then those below it,
/// from the nearest down, at most five and none below 1. Every number within
/// five of `cur` that may stand is probed, `cur` itself never.
pub proof fn lemma_candidates_order(cur: int)
    ensures
        ({
            let c = candidates_of(cur);
            &&& c.len() >= 5
            &&& c[0] == cur + 5
            &&& forall|i: int| 0 <= i < 5 ==> #[trigger] c[i] > cur
            &&& forall|i: int| 5 <= i < c.len() ==> 1 <= #[trigger] c[i] < cur
            &&& forall|i: int| 0 <= i < c.len() ==> cur - 5 <= #[trigger] c[i] <= cur + 5
            &&& forall|i: int, j: int| 0 <= i < j < 5 ==> #[trigger] c[i] > #[trigger] c[j]
            &&& forall|i: int, j: int| 5 <= i < j < c.len() ==> #[trigger] c[i] > #[trigger] c[j]
            &&& forall|n: int| cur < n <= cur + 5 ==> #[trigger] c.take(5).contains(n)
            &&& forall|n: int|
                1 <= n < cur && cur - 5 <= n ==> #[trigger] c.skip(5).contains(n)
        }),
{
    let c = candidates_of(cur);
    assert forall|n: int| cur < n <= cur + 5 implies #[trigger] c.take(5).contains(n) by {
        assert(c.take(5)[cur + 5 - n] == n);
    }
    assert forall|n: int| 1 <= n < cur && cur - 5 <= n implies #[trigger] c.skip(5).contains(n) by {
        assert(c.skip(5)[cur - 1 - n] == n);
    }
}

/// Probing goes through the candidates in order: the first that exists
/// becomes the searched index and the same request is sent to it (and the
/// number is handed out to be cached); a missing one moves on to the next;
/// when the last is missing too, the search fails with the first failure.
pub proof fn lemma_probe_steps(
    c0: SearchClient,
    f0: SearchFlow,
    found: bool,
    c1: SearchClient,
    f1: SearchFlow,
    step: SearchStep,
)
    requires
        f0.stage is Probing,
        search_resumed(c0, f0, SearchEvent::Probed { found }, c1, f1, step),
    ensures
        f0.stage matches SearchStage::Probing { reason, candidates, next } && {
            let cand = dec_int(candidates@[next as int] as int);
            &&& found ==> {
                &&& c1.schema_text() == cand
                &&& c1.channel_text() == c0.channel_text()
                &&& f1.stage is Retry
                &&& step matches SearchStep::Post { url, body, save_schema }
                &&& url@ == "https://search.nixos.org/backend/latest-"@ + cand + "-nixos-"@
                    + c0.channel_text() + "/_search"@
                &&& body == f0.body
                &&& save_schema matches Some(sv) && sv@ == cand
            }
            &&& !found && next + 1 < candidates@.len() ==> {
                &&& c1 == c0
                &&& f1.stage == (SearchStage::Probing {
                    reason,
                    candidates,
                    next: (next + 1) as usize,
                })
                &&& step matches SearchStep::Head { url }
                &&& url@ == "https://search.nixos.org/backend/latest-"@ + dec_int(
                    candidates@[next + 1] as int,
                ) + "-nixos-"@ + c0.channel_text()
            }
            &&& !found && next + 1 >= candidates@.len() ==> {
                &&& c1 == c0
                &&& f1.stage is Finished
                &&& step matches SearchStep::Finish(Err(m))
                &&& m == reason
            }
        },
{
}

/// A first request that fails with a missing index, on a client whose index
/// is a number, starts probing at the number five above it, keeping the
/// failure; any other failure of the first request ends the search with it.
pub proof fn lemma_failure_steps(
    c0: SearchClient,
    f0: SearchFlow,
    ev: SearchEvent,
    c1: SearchClient,
    f1: SearchFlow,
    step: SearchStep,
)
    requires
        f0.stage is Attempt,
        ev matches SearchEvent::Replied { reply, .. } && failure_text(reply) is Some,
        search_resumed(c0, f0, ev, c1, f1, step),
    ensures
        c1 == c0,
        ev matches SearchEvent::Replied { reply, .. } && {
            let fail = failure_text(reply).unwrap();
            &&& (has_substring(fail, "no such index"@) && parse_i32_spec(c0.schema_text()).is_some())
                ==> {
                let cur = parse_i32_spec(c0.schema_text()).unwrap() as int;
                &&& f1.stage matches SearchStage::Probing { reason, candidates, next }
                &&& reason@ == fail
                &&& next == 0
                &&& candidates@.len() >= 5
                &&& candidates@[0] == cur + 5
                &&& step matches SearchStep::Head { url }
                &&& url@ == "https://search.nixos.org/backend/latest-"@ + dec_int(cur + 5)
                    + "-nixos-"@ + c0.channel_text()
            }
            &&& !(has_substring(fail, "no such index"@) && parse_i32_spec(c0.schema_text()).is_some())
                ==> {
                &&& f1.stage is Finished
                &&& step matches SearchStep::Finish(Err(m))
                &&& m@ == fail
            }
        },
{
    if let SearchEvent::Replied { reply, .. } = ev {
        let fail = failure_text(reply).unwrap();
        if has_substring(fail, "no such index"@) && parse_i32_spec(c0.schema_text()).is_some() {
            let cur = parse_i32_spec(c0.schema_text()).unwrap() as int;
            lemma_candidates_order(cur);
            if let SearchStage::Probing { candidates, .. } = f1.stage {
                assert(candidate_values(candidates)[0] == candidates@[0] as int);
            }
        }
    }
}

} // verus!
