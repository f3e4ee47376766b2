//! Candidate signatures of a selector, and the steps of looking them up.

use vstd::prelude::*;
use ethers::abi::Token;
use serde_json::Value;
use crate::json::{elements, json_elements, json_member, json_text, member, to_text};
use crate::ranking::{is_ranking, rank_order, ranking_is_unique, ranks_before};
use crate::text::{
    find_first, remove_last, split_on, split_text, strip_char, texts_of, without_char,
    without_last,
};

verus! {

/// What a selector selects.
#[derive(Clone, Copy, Debug, PartialEq, Eq, Structural)]
pub enum SelectorKind {
    Function,
    Error,
    Event,
}

/// Declares `ethers::abi::Token`, a decoded ABI value. Nothing is claimed of
/// what one holds: candidates carry tokens and never read them.
#[verifier::external_type_specification]
#[verifier::external_body]
pub struct ExToken(ethers::abi::Token);

/// A candidate signature of a function selector. The decoded inputs belong
/// to a call that was decoded against the candidate; a lookup leaves them out.
#[derive(Clone, Debug, PartialEq)]
pub struct ResolvedFunction {
    pub name: String,
    pub signature: String,
    pub inputs: Vec<String>,
    pub decoded_inputs: Option<Vec<Token>>,
}

/// A candidate signature of an error selector.
#[derive(Clone, Debug, PartialEq, Eq)]
pub struct ResolvedError {
    pub name: String,
    pub signature: String,
    pub inputs: Vec<String>,
}

/// A candidate signature of an event selector.
#[derive(Clone, Debug, PartialEq, Eq)]
pub struct ResolvedLog {
    pub name: String,
    pub signature: String,
    pub inputs: Vec<String>,
}

/// The three texts that every candidate holds.
pub struct SignatureParts {
    pub name: Seq<char>,
    pub signature: Seq<char>,
    pub inputs: Seq<Seq<char>>,
}

/// The parts of a text signature `name(input,input,..)`: the name is what
/// precedes the first `(`; the inputs are what follows it, less its last `)`,
/// split at the commas. A text without `(` is no signature.
pub open spec fn parts_of(text: Seq<char>) -> Option<SignatureParts> {
    match text.index_of_first('(') {
        Some(i) => Some(
            SignatureParts {
                name: text.subrange(0, i),
                signature: text,
                inputs: split_on(
                    without_last(text.subrange(i + 1, text.len() as int), ')'),
                    ',',
                ),
            },
        ),
        None => None,
    }
}

/// A kind of candidate that a lookup can produce.
pub trait ResolveSelector: Sized {
    /// The kind of selector that this candidate answers.
    spec fn kind() -> SelectorKind;

    /// The candidate's texts.
    spec fn parts(&self) -> SignatureParts;

    /// Whether the candidate is as a lookup builds it.
    spec fn fresh(&self) -> bool;

    /// The kind of selector that this candidate answers.
    fn selector_kind() -> (k: SelectorKind)
        ensures
            k == Self::kind(),
    ;

    /// The candidate's text signature.
    fn signature_text(&self) -> (text: &str)
        ensures
            text@ == self.parts().signature,
    ;

    /// Builds a candidate from its texts.
    fn from_parts(name: String, signature: String, inputs: Vec<String>) -> (made: Self)
        ensures
            made.parts() == (SignatureParts {
                name: name@,
                signature: signature@,
                inputs: texts_of(inputs@),
            }),
            made.fresh(),
    ;
}

impl ResolveSelector for ResolvedFunction {
    open spec fn kind() -> SelectorKind {
        SelectorKind::Function
    }

    open spec fn parts(&self) -> SignatureParts {
        SignatureParts {
            name: self.name@,
            signature: self.signature@,
            inputs: texts_of(self.inputs@),
        }
    }

    open spec fn fresh(&self) -> bool {
        self.decoded_inputs.is_none()
    }

    fn selector_kind() -> (k: SelectorKind) {
        SelectorKind::Function
    }

    fn signature_text(&self) -> (text: &str) {
        self.signature.as_str()
    }

    fn from_parts(name: String, signature: String, inputs: Vec<String>) -> (made: Self) {
        ResolvedFunction { name, signature, inputs, decoded_inputs: None }
    }
}

impl ResolveSelector for ResolvedError {
    open spec fn kind() -> SelectorKind {
        SelectorKind::Error
    }

    open spec fn parts(&self) -> SignatureParts {
        SignatureParts {
            name: self.name@,
            signature: self.signature@,
            inputs: texts_of(self.inputs@),
        }
    }

    open spec fn fresh(&self) -> bool {
        true
    }

    fn selector_kind() -> (k: SelectorKind) {
        SelectorKind::Error
    }

    fn signature_text(&self) -> (text: &str) {
        self.signature.as_str()
    }

    fn from_parts(name: String, signature: String, inputs: Vec<String>) -> (made: Self) {
        ResolvedError { name, signature, inputs }
    }
}

impl ResolveSelector for ResolvedLog {
    open spec fn kind() -> SelectorKind {
        SelectorKind::Event
    }

    open spec fn parts(&self) -> SignatureParts {
        SignatureParts {
            name: self.name@,
            signature: self.signature@,
            inputs: texts_of(self.inputs@),
        }
    }

    open spec fn fresh(&self) -> bool {
        true
    }

    fn selector_kind() -> (k: SelectorKind) {
        SelectorKind::Event
    }

    fn signature_text(&self) -> (text: &str) {
        self.signature.as_str()
    }

    fn from_parts(name: String, signature: String, inputs: Vec<String>) -> (made: Self) {
        ResolvedLog { name, signature, inputs }
    }
}

/// Reads a text signature into a candidate: `None` exactly where the text
/// holds no `(`.
pub fn parse_signature<T: ResolveSelector>(text: &str) -> (parsed: Option<T>)
    ensures
        match parts_of(text@) {
            Some(parts) => parsed.is_some() && parsed.unwrap().parts() == parts
                && parsed.unwrap().fresh(),
            None => parsed.is_none(),
        },
{
    match find_first(text, '(') {
        Some(i) => {
            let n: usize = text.unicode_len();
            let name = String::from_str(text.substring_char(0, i));
            let trimmed = remove_last(text.substring_char(i + 1, n), ')');
            let inputs = split_text(trimmed.as_str(), ',');
            Some(T::from_parts(name, String::from_str(text), inputs))
        },
        None => None,
    }
}

/// The longest that a directory is given to answer, in seconds.
pub const LOOKUP_TIMEOUT: u64 = 10;

/// The key under which the candidates of one kind for `selector` are cached:
/// the kind is part of it, so that lookups of different kinds never read or
/// write each other's entries.
pub open spec fn cache_key_of(kind: SelectorKind, selector: Seq<char>) -> Seq<char> {
    "selector."@ + kind_segment(kind) + "."@ + selector
}

/// The name of a kind in the directory's addresses.
pub open spec fn kind_segment(kind: SelectorKind) -> Seq<char> {
    match kind {
        SelectorKind::Function => "function"@,
        SelectorKind::Error => "error"@,
        SelectorKind::Event => "event"@,
    }
}

/// The address at which the directory lists the candidates of `selector`.
pub open spec fn lookup_url_of(kind: SelectorKind, selector: Seq<char>) -> Seq<char> {
    "https://api.etherface.io/v1/signatures/hash/"@ + kind_segment(kind) + "/"@ + selector
        + "/1"@
}

/// The text signature of one entry of the directory's answer: the JSON text
/// of its member `text`, less every double quote; `None` without that member.
pub open spec fn entry_text_of(entry: Value) -> Option<Seq<char>> {
    match json_member(entry, "text"@) {
        Some(text) => Some(without_char(json_text(text), '"')),
        None => None,
    }
}

/// The candidate that one entry gives, if any.
pub open spec fn entry_parts(entry: Value) -> Option<SignatureParts> {
    match entry_text_of(entry) {
        Some(text) => parts_of(text),
        None => None,
    }
}

/// The candidates that a list of entries gives: those of the entries that
/// hold a text signature, in the order of the entries.
pub open spec fn entries_parts(entries: Seq<Value>) -> Seq<SignatureParts> {
    entries.filter_map(|entry: Value| entry_parts(entry))
}

/// The candidates that an answer gives: those of the array under its member
/// `items`; `None` where the answer has no such member or it is no array.
pub open spec fn response_parts(response: Value) -> Option<Seq<SignatureParts>> {
    match json_member(response, "items"@) {
        Some(items) => match json_elements(items) {
            Some(entries) => Some(entries_parts(entries)),
            None => None,
        },
        None => None,
    }
}

/// The texts of a list of candidates.
pub open spec fn parts_seq<T: ResolveSelector>(list: Seq<T>) -> Seq<SignatureParts> {
    list.map_values(|item: T| item.parts())
}

/// Whether every candidate of a list is as a lookup builds it.
pub open spec fn all_fresh<T: ResolveSelector>(list: Seq<T>) -> bool {
    forall|i: int| 0 <= i < list.len() ==> (#[trigger] list[i]).fresh()
}

/// The key under which the candidates of one kind for `selector` are cached.
pub fn cache_key(kind: SelectorKind, selector: &str) -> (key: String)
    ensures
        key@ == cache_key_of(kind, selector@),
{
    String::from_str("selector.").concat(kind_name(kind)).concat(".").concat(selector)
}

/// The name of a kind in the directory's addresses.
pub fn kind_name(kind: SelectorKind) -> (name: &'static str)
    ensures
        name@ == kind_segment(kind),
{
    match kind {
        SelectorKind::Function => "function",
        SelectorKind::Error => "error",
        SelectorKind::Event => "event",
    }
}

/// The address at which the directory lists the candidates of `selector`.
pub fn lookup_url(kind: SelectorKind, selector: &str) -> (url: String)
    ensures
        url@ == lookup_url_of(kind, selector@),
{
    String::from_str("https://api.etherface.io/v1/signatures/hash/").concat(
        kind_name(kind),
    ).concat("/").concat(selector).concat("/1")
}

/// The text signature that one entry of the directory's answer holds.
pub fn entry_text(entry: &Value) -> (text: Option<String>)
    ensures
        match entry_text_of(*entry) {
            Some(expected) => text.is_some() && text.unwrap()@ == expected,
            None => text.is_none(),
        },
{
    match member(entry, "text") {
        Some(inner) => {
            let quoted = to_text(inner);
            Some(strip_char(quoted.as_str(), '"'))
        },
        None => None,
    }
}

/// Reads the entries of an answer into candidates, in order; an entry
/// without a text signature gives none.
pub fn parse_entries<T: ResolveSelector>(entries: &Vec<Value>) -> (list: Vec<T>)
    ensures
        parts_seq(list@) == entries_parts(entries@),
        all_fresh(list@),
{
    let mut list: Vec<T> = Vec::new();
    let mut i: usize = 0;
    proof {
        assert(entries@.subrange(0, 0) =~= Seq::<Value>::empty());
        assert(parts_seq(list@) =~= entries_parts(entries@.subrange(0, 0)));
    }
    while i < entries.len()
        invariant
            i <= entries.len(),
            parts_seq(list@) == entries_parts(entries@.subrange(0, i as int)),
            all_fresh(list@),
        decreases entries.len() - i,
    {
        proof {
            let upto = entries@.subrange(0, i + 1);
            assert(upto.drop_last() =~= entries@.subrange(0, i as int));
            assert(upto.last() == entries@[i as int]);
        }
        let parsed: Option<T> = match entry_text(&entries[i]) {
            Some(text) => parse_signature(text.as_str()),
            None => None,
        };
        match parsed {
            Some(item) => {
                proof {
                    assert(parts_seq(list@.push(item)) =~= parts_seq(list@) + seq![item.parts()]);
                }
                list.push(item);
            },
            None => {},
        }
        i = i + 1;
    }
    proof {
        assert(entries@.subrange(0, entries.len() as int) =~= entries@);
    }
    list
}

/// Reads the directory's answer into candidates: `None` where it has no
/// array under `items`, else every candidate that the array's entries give.
pub fn parse_response<T: ResolveSelector>(response: &Value) -> (list: Option<Vec<T>>)
    ensures
        match response_parts(*response) {
            Some(parts) => list.is_some() && parts_seq(list.unwrap()@) == parts && all_fresh(
                list.unwrap()@,
            ),
            None => list.is_none(),
        },
{
    match member(response, "items") {
        Some(items) => match elements(items) {
            Some(entries) => Some(parse_entries(entries)),
            None => None,
        },
        None => None,
    }
}

/// What a lookup ends with: the candidates, or `None` where there is none.
pub fn some_if_any<T>(list: Vec<T>) -> (outcome: Option<Vec<T>>)
    ensures
        outcome == if list@.len() == 0 {
            None
        } else {
            Some(list)
        },
{
    if list.len() == 0 {
        None
    } else {
        Some(list)
    }
}

/// The text signatures of a list of candidates.
pub open spec fn signatures_of<T: ResolveSelector>(list: Seq<T>) -> Seq<Seq<char>> {
    list.map_values(|item: T| item.parts().signature)
}

/// Whether `ranked` holds the candidates of `list` at the positions that
/// `order` lists, and `order` is their ranking.
pub open spec fn is_arrangement<T: ResolveSelector>(
    list: Seq<T>,
    ranked: Seq<T>,
    order: Seq<usize>,
) -> bool {
    is_ranking(signatures_of(list), order) && ranked == order.map_values(
        |k: usize| list[k as int],
    )
}

/// Whether `ranked` holds the candidates of `list` best first: by falling
/// score of their signatures, candidates of one score in the order of `list`.
pub open spec fn is_ranked<T: ResolveSelector>(list: Seq<T>, ranked: Seq<T>) -> bool {
    exists|order: Seq<usize>| is_arrangement(list, ranked, order)
}

/// Orders candidates best first: by falling score of their signatures,
/// candidates of one score in the order in which they came.
pub fn rank<T: ResolveSelector>(list: Vec<T>) -> (ranked: Vec<T>)
    ensures
        is_ranked(list@, ranked@),
{
    let ghost orig = list@;
    let n: usize = list.len();
    let mut rest = list;
    let mut slots: Vec<Option<T>> = Vec::new();
    let mut texts: Vec<String> = Vec::new();
    let mut i: usize = 0;
    while i < n
        invariant
            n == orig.len(),
            i <= n,
            rest@ == orig.subrange(i as int, n as int),
            slots.len() == i,
            texts.len() == i,
            forall|j: int| 0 <= j < i ==> #[trigger] slots[j] == Some(orig[j]),
            forall|j: int| 0 <= j < i ==> (#[trigger] texts[j])@ == orig[j].parts().signature,
        decreases n - i,
    {
        let item = rest.remove(0);
        proof {
            assert(rest@ =~= orig.subrange(i + 1, n as int));
            assert(item == orig[i as int]);
        }
        texts.push(String::from_str(item.signature_text()));
        slots.push(Some(item));
        i = i + 1;
    }
    proof {
        assert(texts_of(texts@) =~= signatures_of(orig));
    }
    let order = rank_order(&texts);
    let mut ranked: Vec<T> = Vec::new();
    let mut k: usize = 0;
    while k < n
        invariant
            n == orig.len(),
            k <= n,
            slots.len() == n,
            order.len() == n,
            is_ranking(signatures_of(orig), order@),
            ranked.len() == k,
            forall|j: int| 0 <= j < k ==> #[trigger] ranked[j] == orig[order[j] as int],
            forall|j: int|
                k <= j < n ==> slots[(#[trigger] order[j]) as int] == Some(
                    orig[order[j] as int],
                ),
        decreases n - k,
    {
        let at: usize = order[k];
        let ghost before = slots@;
        slots.push(None);
        let slot = slots.swap_remove(at);
        proof {
            assert(slots@ =~= before.update(at as int, None));
            assert forall|j: int| k + 1 <= j < n implies slots[(#[trigger] order[j]) as int]
                == Some(orig[order[j] as int]) by {
                assert(ranks_before(signatures_of(orig), order[k as int] as int, order[j] as int));
            }
        }
        ranked.push(slot.unwrap());
        k = k + 1;
    }
    proof {
        assert(ranked@ =~= order@.map_values(|k: usize| orig[k as int]));
        assert(is_arrangement(orig, ranked@, order@));
    }
    ranked
}

/// What has happened in a lookup, as its driver reports it.
pub enum ResolveEvent<T> {
    /// Nothing yet.
    Started,
    /// The cache was read: `None` where it holds nothing under the key.
    CacheRead(Option<Vec<T>>),
    /// The directory was asked: `None` where it gave no document.
    Fetched(Option<Value>),
    /// The directory could not be asked, or failed to answer.
    FetchFailed,
    /// The candidates were written to the cache and are handed back.
    Stored(Vec<T>),
}

/// What the driver of a lookup does next.
pub enum ResolveAction<T> {
    /// Read the cache under `key`.
    ReadCache { key: String },
    /// Ask the directory at `url`, waiting at most `timeout` seconds.
    Fetch { url: String, timeout: u64 },
    /// Write `results` to the cache under `key`.
    Store { key: String, results: Vec<T> },
    /// Return the outcome.
    Finish(Option<Vec<T>>),
}

/// Whether `outcome` is what a lookup ends with on the candidates `list`:
/// `None` where there is none, else all of them, best first.
pub open spec fn is_ranked_outcome<T: ResolveSelector>(list: Seq<T>, outcome: Option<Vec<T>>) -> bool {
    if list.len() == 0 {
        outcome.is_none()
    } else {
        outcome matches Some(ranked) && is_ranked(list, ranked@)
    }
}

/// The action that a lookup owes after each event.
pub open spec fn owed<T: ResolveSelector>(
    selector: Seq<char>,
    event: ResolveEvent<T>,
    action: ResolveAction<T>,
) -> bool {
    match event {
        ResolveEvent::Started => action matches ResolveAction::ReadCache { key } && key@
            == cache_key_of(T::kind(), selector),
        ResolveEvent::CacheRead(Some(cached)) => action matches ResolveAction::Finish(outcome)
            && is_ranked_outcome(cached@, outcome),
        ResolveEvent::CacheRead(None) => action matches ResolveAction::Fetch { url, timeout }
            && url@ == lookup_url_of(T::kind(), selector) && timeout == LOOKUP_TIMEOUT,
        ResolveEvent::Fetched(None) => action == ResolveAction::<T>::Finish(None),
        ResolveEvent::FetchFailed => action == ResolveAction::<T>::Finish(None),
        ResolveEvent::Fetched(Some(response)) => match response_parts(response) {
            Some(parts) => action matches ResolveAction::Store { key, results } && key@
                == cache_key_of(T::kind(), selector) && parts_seq(results@) == parts && all_fresh(
                results@,
            ),
            None => action == ResolveAction::<T>::Finish(None),
        },
        ResolveEvent::Stored(list) => action matches ResolveAction::Finish(outcome)
            && is_ranked_outcome(list@, outcome),
    }
}

/// One decision of the lookup of `selector`. A lookup first reads the cache;
/// what the cache holds is the outcome, an empty list counting as no
/// candidate. Without a cached list the directory is asked; its answer is read
/// into candidates, which are cached in the directory's order, also where
/// there is none, and returned. A directory that fails ends the lookup
/// without a candidate and without a write to the cache. An outcome offers
/// its candidates best first.
pub fn resolve_step<T: ResolveSelector>(selector: &str, event: ResolveEvent<T>) -> (action:
    ResolveAction<T>)
    ensures
        owed(selector@, event, action),
{
    match event {
        ResolveEvent::Started => ResolveAction::ReadCache {
            key: cache_key(T::selector_kind(), selector),
        },
        ResolveEvent::CacheRead(Some(cached)) => ResolveAction::Finish(some_if_any(rank(cached))),
        ResolveEvent::CacheRead(None) => ResolveAction::Fetch {
            url: lookup_url(T::selector_kind(), selector),
            timeout: LOOKUP_TIMEOUT,
        },
        ResolveEvent::Fetched(None) => ResolveAction::Finish(None),
        ResolveEvent::FetchFailed => ResolveAction::Finish(None),
        ResolveEvent::Fetched(Some(response)) => match parse_response(&response) {
            Some(results) => ResolveAction::Store {
                key: cache_key(T::selector_kind(), selector),
                results,
            },
            None => ResolveAction::Finish(None),
        },
        ResolveEvent::Stored(list) => ResolveAction::Finish(some_if_any(rank(list))),
    }
}

/// Whether two actions ask the same of the driver: the same texts, the same
/// candidates by their texts, the same outcome.
pub open spec fn same_action<T: ResolveSelector>(a: ResolveAction<T>, b: ResolveAction<T>) -> bool {
    match (a, b) {
        (ResolveAction::ReadCache { key: k1 }, ResolveAction::ReadCache { key: k2 }) => k1@
            == k2@,
        (
            ResolveAction::Fetch { url: u1, timeout: t1 },
            ResolveAction::Fetch { url: u2, timeout: t2 },
        ) => u1@ == u2@ && t1 == t2,
        (
            ResolveAction::Store { key: k1, results: r1 },
            ResolveAction::Store { key: k2, results: r2 },
        ) => k1@ == k2@ && parts_seq(r1@) == parts_seq(r2@),
        (ResolveAction::Finish(o1), ResolveAction::Finish(o2)) => match (o1, o2) {
            (Some(l1), Some(l2)) => l1@ == l2@,
            (None, None) => true,
            _ => false,
        },
        _ => false,
    }
}

/// A lookup is deterministic: selector and event leave one action only, so
/// two runs on the same events ask the same of their drivers.
pub proof fn step_is_determined<T: ResolveSelector>(
    selector: Seq<char>,
    event: ResolveEvent<T>,
    first: ResolveAction<T>,
    second: ResolveAction<T>,
)
    requires
        owed(selector, event, first),
        owed(selector, event, second),
    ensures
        same_action(first, second),
{
    match event {
        ResolveEvent::CacheRead(Some(list)) => {
            ranked_is_unique(list@, first->Finish_0, second->Finish_0);
        },
        ResolveEvent::Stored(list) => {
            ranked_is_unique(list@, first->Finish_0, second->Finish_0);
        },
        _ => {},
    }
}

/// On one list of candidates a lookup has one outcome.
proof fn ranked_is_unique<T: ResolveSelector>(
    list: Seq<T>,
    first: Option<Vec<T>>,
    second: Option<Vec<T>>,
)
    requires
        is_ranked_outcome(list, first),
        is_ranked_outcome(list, second),
    ensures
        match (first, second) {
            (Some(l1), Some(l2)) => l1@ == l2@,
            (None, None) => true,
            _ => false,
        },
{
    if list.len() > 0 {
        let texts = signatures_of(list);
        let a = choose|order: Seq<usize>| is_arrangement(list, first.unwrap()@, order);
        let b = choose|order: Seq<usize>| is_arrangement(list, second.unwrap()@, order);
        ranking_is_unique(texts, a, b);
    }
}

/// A lookup never ends with an empty list: it ends with `None` or with at
/// least one candidate.
pub proof fn outcome_is_never_empty<T: ResolveSelector>(
    selector: Seq<char>,
    event: ResolveEvent<T>,
    action: ResolveAction<T>,
)
    requires
        owed(selector, event, action),
    ensures
        action matches ResolveAction::Finish(Some(list)) ==> list@.len() > 0,
{
}

/// A cache key belongs to one kind and one selector: lookups that differ in
/// either never read or write the same entry.
pub proof fn cache_key_is_its_own(
    first: SelectorKind,
    a: Seq<char>,
    second: SelectorKind,
    b: Seq<char>,
)
    requires
        cache_key_of(first, a) == cache_key_of(second, b),
    ensures
        first == second,
        a == b,
{
    reveal_strlit("selector.");
    reveal_strlit("function");
    reveal_strlit("error");
    reveal_strlit("event");
    reveal_strlit(".");
    let x = cache_key_of(first, a);
    let y = cache_key_of(second, b);
    assert(x[9] == kind_segment(first)[0]);
    assert(y[9] == kind_segment(second)[0]);
    assert(x[10] == kind_segment(first)[1]);
    assert(y[10] == kind_segment(second)[1]);
    assert(first == second);
    let skip = 9 + kind_segment(first).len() + 1;
    assert(x.subrange(skip as int, x.len() as int) =~= a);
    assert(y.subrange(skip as int, y.len() as int) =~= b);
}

} // verus!
