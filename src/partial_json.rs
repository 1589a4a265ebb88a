use vstd::prelude::*;
use vstd::slice::{slice_subrange, slice_to_vec};

use crate::error::JsonStreamError;

verus! {

/// serde_json's decoded value: the elements are handed out in this form,
/// unopened.
#[verifier::external_type_specification]
#[verifier::external_body]
pub struct ExValue(serde_json::Value);

/// Whether serde_json accepts these bytes as one JSON value.
pub uninterp spec fn json_accepts(b: Seq<u8>) -> bool;

/// Relies on serde_json::from_slice: it decodes one JSON value, surrounded by
/// whitespace at most, and whether it succeeds depends on the bytes alone.
#[verifier::external_body]
fn decode_value(b: &[u8]) -> (r: Result<serde_json::Value, serde_json::Error>)
    ensures
        (r is Ok) == json_accepts(b@),
{
    serde_json::from_slice(b)
}

pub const QUOTE: u8 = 34;

pub const BACKSLASH: u8 = 92;

pub const COMMA: u8 = 44;

pub open spec fn is_open(b: u8) -> bool {
    b == 91 || b == 123
}

pub open spec fn is_close(b: u8) -> bool {
    b == 93 || b == 125
}

/// JSON whitespace: space, tab, line feed, carriage return.
pub open spec fn is_space(b: u8) -> bool {
    b == 32 || b == 9 || b == 10 || b == 13
}

pub open spec fn is_blank(s: Seq<u8>) -> bool {
    forall|k: int| 0 <= k < s.len() ==> is_space(#[trigger] s[k])
}

/// Where the scanner stands after some prefix of the stream: the bracket and
/// brace depth outside strings, whether it is inside a string, whether the
/// previous byte was an unconsumed backslash inside a string, and where the
/// element that is being read at the target level started, as an index into the
/// whole stream.
pub struct Scan {
    pub depth: nat,
    pub in_str: bool,
    pub esc: bool,
    pub start: Option<nat>,
}

/// Before any byte. At level 0 an element starts with the stream itself.
pub open spec fn scan_init(level: nat) -> Scan {
    Scan {
        depth: 0,
        in_str: false,
        esc: false,
        start: if level == 0 {
            Some(0)
        } else {
            None
        },
    }
}

/// The scanner's move over byte `b`, found at index `i` of the stream. The
/// depth saturates at `usize::MAX`, the widest counter the machine holds.
pub open spec fn scan_step(st: Scan, b: u8, i: nat, level: nat) -> Scan {
    if st.in_str {
        if st.esc {
            Scan { esc: false, ..st }
        } else if b == BACKSLASH {
            Scan { esc: true, ..st }
        } else if b == QUOTE {
            Scan { in_str: false, ..st }
        } else {
            st
        }
    } else if b == QUOTE {
        Scan { in_str: true, ..st }
    } else if is_open(b) {
        let d = if st.depth >= usize::MAX {
            st.depth
        } else {
            st.depth + 1
        };
        Scan {
            depth: d,
            start: if st.depth + 1 == level {
                Some(i + 1)
            } else {
                st.start
            },
            ..st
        }
    } else if is_close(b) {
        Scan {
            depth: if st.depth == 0 {
                0
            } else {
                (st.depth - 1) as nat
            },
            start: if st.depth == level {
                None
            } else {
                st.start
            },
            ..st
        }
    } else if b == COMMA && st.depth == level {
        Scan { start: Some(i + 1), ..st }
    } else {
        st
    }
}

/// The scanner's state after the whole of `s`.
pub open spec fn scan(s: Seq<u8>, level: nat) -> Scan
    decreases s.len(),
{
    if s.len() == 0 {
        scan_init(level)
    } else {
        scan_step(scan(s.drop_last(), level), s.last(), (s.len() - 1) as nat, level)
    }
}

/// Whether byte `b`, read in state `st`, closes an element at the target level:
/// a comma or a closing bracket outside any string, at that depth.
pub open spec fn ends_element(st: Scan, b: u8, level: nat) -> bool {
    !st.in_str && st.depth == level && (is_close(b) || b == COMMA)
}

/// The element that the last byte of `s` completes, if any: the bytes from the
/// element's start up to that byte, unless they are only whitespace.
pub open spec fn completed(s: Seq<u8>, level: nat) -> Option<Seq<u8>>
    recommends
        s.len() > 0,
{
    let p = s.drop_last();
    let st = scan(p, level);
    if ends_element(st, s.last(), level) && st.start is Some && st.start->0 <= p.len()
        && !is_blank(p.subrange(st.start->0 as int, p.len() as int)) {
        Some(p.subrange(st.start->0 as int, p.len() as int))
    } else {
        None
    }
}

/// The complete elements at the target level in `s`, in stream order, each as
/// its exact bytes (separators excluded).
pub open spec fn elements(s: Seq<u8>, level: nat) -> Seq<Seq<u8>>
    decreases s.len(),
{
    if s.len() == 0 {
        Seq::empty()
    } else {
        let e = elements(s.drop_last(), level);
        match completed(s, level) {
            Some(x) => e.push(x),
            None => e,
        }
    }
}

/// The element start that the scanner records never lies beyond what it read.
pub proof fn lemma_scan_start_bound(s: Seq<u8>, level: nat)
    ensures
        scan(s, level).start matches Some(a) ==> a <= s.len(),
    decreases s.len(),
{
    if s.len() > 0 {
        lemma_scan_start_bound(s.drop_last(), level);
    }
}

/// The elements of a prefix are a prefix of the elements of the whole: what
/// has been handed out is never taken back by later bytes.
pub proof fn lemma_elements_prefix(s: Seq<u8>, k: nat, level: nat)
    requires
        k <= s.len(),
    ensures
        elements(s.take(k as int), level).len() <= elements(s, level).len(),
        elements(s.take(k as int), level) =~= elements(s, level).take(
            elements(s.take(k as int), level).len() as int,
        ),
    decreases s.len(),
{
    if k < s.len() {
        assert(s.drop_last().take(k as int) =~= s.take(k as int));
        lemma_elements_prefix(s.drop_last(), k, level);
    } else {
        assert(s.take(k as int) =~= s);
    }
}

/// The exact scanner state, with element starts relative to the buffer.
#[derive(Clone, Copy)]
struct Cursor {
    depth: usize,
    in_str: bool,
    esc: bool,
    start: Option<usize>,
}

impl Cursor {
    /// The scanner state that this cursor stands for, for a buffer that begins
    /// at stream index `off`.
    spec fn view_at(self, off: nat) -> Scan {
        Scan {
            depth: self.depth as nat,
            in_str: self.in_str,
            esc: self.esc,
            start: match self.start {
                Some(a) => Some(off + a as nat),
                None => None,
            },
        }
    }

    fn step(self, b: u8, i: usize, level: u32, Ghost(off): Ghost<nat>) -> (r: Cursor)
        requires
            i < usize::MAX,
        ensures
            r.view_at(off) == scan_step(self.view_at(off), b, off + i as nat, level as nat),
            r.start matches Some(a) ==> (a == i + 1 || self.start == Some(a)),
    {
        let lvl = level as usize;
        if self.in_str {
            if self.esc {
                Cursor { esc: false, ..self }
            } else if b == BACKSLASH {
                Cursor { esc: true, ..self }
            } else if b == QUOTE {
                Cursor { in_str: false, ..self }
            } else {
                self
            }
        } else if b == QUOTE {
            Cursor { in_str: true, ..self }
        } else if b == 91 || b == 123 {
            let d = if self.depth == usize::MAX {
                self.depth
            } else {
                self.depth + 1
            };
            let opens = self.depth < usize::MAX && self.depth + 1 == level as usize;
            let r = Cursor {
                depth: d,
                start: if opens {
                    Some(i + 1)
                } else {
                    self.start
                },
                ..self
            };
            assert(self.depth + 1 == level as nat <==> opens);
            r
        } else if b == 93 || b == 125 {
            Cursor {
                depth: if self.depth == 0 {
                    0
                } else {
                    self.depth - 1
                },
                start: if self.depth == lvl && lvl as u32 == level {
                    None
                } else {
                    self.start
                },
                ..self
            }
        } else if b == COMMA && self.depth == lvl && lvl as u32 == level {
            Cursor { start: Some(i + 1), ..self }
        } else {
            self
        }
    }
}

fn all_blank(buf: &Vec<u8>, a: usize, b: usize) -> (r: bool)
    requires
        a <= b <= buf@.len(),
    ensures
        r == is_blank(buf@.subrange(a as int, b as int)),
{
    let mut k = a;
    while k < b
        invariant
            a <= k <= b <= buf@.len(),
            is_blank(buf@.subrange(a as int, k as int)),
        decreases b - k,
    {
        let c = buf[k];
        if !(c == 32 || c == 9 || c == 10 || c == 13) {
            assert(buf@.subrange(a as int, b as int)[k - a] == c);
            return false;
        }
        assert forall|j: int| 0 <= j < k + 1 - a implies is_space(
            #[trigger] buf@.subrange(a as int, k + 1)[j],
        ) by {
            if j < k - a {
                assert(buf@.subrange(a as int, k + 1)[j] == buf@.subrange(a as int, k as int)[j]);
            }
        }
        k = k + 1;
    }
    true
}

/// Extracts the complete JSON values found at one nesting level of a byte
/// stream that arrives in pieces.
///
/// Bytes are appended with `push`; `next_slice` hands out the next complete
/// element, if the bytes so far hold one, and drops everything up to and
/// including its separator from the buffer.
pub struct PartialJson {
    buf: Vec<u8>,
    pos: usize,
    cur: Cursor,
    level: u32,
    stream: Ghost<Seq<u8>>,
    dropped: Ghost<nat>,
}

impl PartialJson {
    /// Every byte pushed so far, in order.
    pub closed spec fn stream(&self) -> Seq<u8> {
        self.stream@
    }

    /// The nesting level at which elements are taken.
    pub closed spec fn level(&self) -> nat {
        self.level as nat
    }

    /// The elements handed out so far.
    pub closed spec fn produced(&self) -> Seq<Seq<u8>> {
        elements(self.stream@.take(self.dropped@ + self.pos), self.level as nat)
    }

    /// The bytes still held, those of the pending element and any after it.
    pub closed spec fn held(&self) -> Seq<u8> {
        self.buf@
    }

    pub closed spec fn wf(&self) -> bool {
        &&& self.dropped@ + self.buf@.len() == self.stream@.len()
        &&& self.buf@ =~= self.stream@.subrange(self.dropped@ as int, self.stream@.len() as int)
        &&& self.pos <= self.buf@.len()
        &&& self.cur.view_at(self.dropped@) == scan(
            self.stream@.take(self.dropped@ + self.pos),
            self.level as nat,
        )
        &&& self.cur.start matches Some(a) ==> a <= self.pos
    }

    /// An extractor for elements at nesting depth `level`, whose buffer starts
    /// with room for `capacity` bytes. Depth 1 takes the elements of a
    /// top-level array; depth 0 takes comma-separated values at the top.
    pub fn new(capacity: usize, level: u32) -> (r: PartialJson)
        ensures
            r.wf(),
            r.stream() == Seq::<u8>::empty(),
            r.level() == level as nat,
            r.produced() == Seq::<Seq<u8>>::empty(),
    {
        let r = PartialJson {
            buf: Vec::with_capacity(capacity),
            pos: 0,
            cur: Cursor {
                depth: 0,
                in_str: false,
                esc: false,
                start: if level == 0 {
                    Some(0)
                } else {
                    None
                },
            },
            level,
            stream: Ghost(Seq::empty()),
            dropped: Ghost(0),
        };
        assert(Seq::<u8>::empty().take(0) =~= Seq::<u8>::empty());
        r
    }

    /// Appends bytes to the buffer. Nothing is scanned here.
    pub fn push(&mut self, bytes: &[u8])
        requires
            old(self).wf(),
        ensures
            final(self).wf(),
            final(self).stream() == old(self).stream() + bytes@,
            final(self).level() == old(self).level(),
            final(self).produced() == old(self).produced(),
    {
        let ghost s0 = self.stream@;
        let ghost k0 = self.dropped@ + self.pos;
        let mut k: usize = 0;
        while k < bytes.len()
            invariant
                k <= bytes@.len(),
                self.dropped@ + self.buf@.len() == s0.len() + k,
                self.buf@ =~= (s0 + bytes@.take(k as int)).subrange(
                    self.dropped@ as int,
                    s0.len() + k,
                ),
                self.pos <= self.buf@.len(),
                self.stream@ == s0,
                s0 == old(self).stream@,
                self.level == old(self).level,
                self.cur == old(self).cur,
                self.pos == old(self).pos,
                self.dropped == old(self).dropped,
                old(self).wf(),
                k0 == self.dropped@ + self.pos,
                k0 <= s0.len(),
            decreases bytes@.len() - k,
        {
            self.buf.push(bytes[k]);
            k = k + 1;
            assert(bytes@.take(k as int) =~= bytes@.take(k - 1).push(bytes@[k - 1]));
        }
        assert(bytes@.take(k as int) =~= bytes@);
        self.stream = Ghost(s0 + bytes@);
        assert(self.stream@.take(k0 as int) =~= s0.take(k0 as int));
    }

    /// Hands out the next complete element: the next one of
    /// `elements(stream, level)` that has not been handed out, or `None` when
    /// all have been. `None` leaves the held bytes as they are.
    pub fn next_slice(&mut self) -> (r: Option<Vec<u8>>)
        requires
            old(self).wf(),
        ensures
            final(self).wf(),
            final(self).stream() == old(self).stream(),
            final(self).level() == old(self).level(),
            old(self).produced().len() <= elements(old(self).stream(), old(self).level()).len(),
            r matches Some(e) ==> old(self).produced().len() < elements(
                old(self).stream(),
                old(self).level(),
            ).len() && e@ == elements(old(self).stream(), old(self).level())[old(self).produced().len() as int] && final(self).produced() == old(self).produced().push(e@),
            r is None ==> final(self).produced() == elements(old(self).stream(), old(self).level())
                && old(self).produced() == final(self).produced() && final(self).held() == old(self).held(),
    {
        let ghost s = self.stream@;
        let ghost lvl = self.level as nat;
        let ghost p0 = self.produced();
        proof {
            lemma_elements_prefix(s, (self.dropped@ + self.pos) as nat, lvl);
        }
        let n = self.buf.len();
        while self.pos < n
            invariant
                self.wf(),
                self.stream@ == s,
                s == old(self).stream@,
                self.level == old(self).level,
                self.level as nat == lvl,
                self.buf@.len() == n,
                self.produced() == p0,
                p0 == old(self).produced(),
                lvl == old(self).level(),
                p0 =~= elements(s, lvl).take(p0.len() as int),
                p0.len() <= elements(s, lvl).len(),
            decreases n - self.pos,
        {
            let i = self.pos;
            let b = self.buf[i];
            let ghost d = self.dropped@;
            let ghost pre = s.take(d + i);
            let ghost st = scan(pre, lvl);
            proof {
                lemma_scan_start_bound(pre, lvl);
                assert(s.take(d + i + 1).drop_last() =~= pre);
                assert(s.take(d + i + 1).last() == b);
            }
            let ends = !self.cur.in_str && self.cur.depth == self.level as usize
                && self.level as usize as u32 == self.level && (b == 93 || b == 125 || b
                == COMMA);
            assert(ends == ends_element(st, b, lvl));
            let emit_from = if ends {
                match self.cur.start {
                    Some(a) => {
                        if all_blank(&self.buf, a, i) {
                            None
                        } else {
                            Some(a)
                        }
                    },
                    None => None,
                }
            } else {
                None
            };
            proof {
                if let Some(a) = self.cur.start {
                    assert(pre.subrange(d + a, pre.len() as int) =~= self.buf@.subrange(
                        a as int,
                        i as int,
                    ));
                }
            }
            assert(emit_from is Some <==> completed(s.take(d + i + 1), lvl) is Some);
            self.cur = self.cur.step(b, i, self.level, Ghost(d));
            self.pos = i + 1;
            if let Some(a) = emit_from {
                let e = slice_to_vec(slice_subrange(self.buf.as_slice(), a, i));
                assert(e@ =~= pre.subrange(d + a, pre.len() as int));
                assert(elements(s.take(d + i + 1), lvl) == p0.push(e@));
                proof {
                    lemma_elements_prefix(s, (d + i + 1) as nat, lvl);
                    let q = elements(s.take(d + i + 1), lvl);
                    assert(q.len() == p0.len() + 1);
                    assert(q[p0.len() as int] == e@);
                    assert(elements(s, lvl).take(q.len() as int)[p0.len() as int] == elements(
                        s,
                        lvl,
                    )[p0.len() as int]);
                }
                let tail = self.buf.split_off(i + 1);
                self.buf = tail;
                self.dropped = Ghost((d + i + 1) as nat);
                self.pos = 0;
                self.cur.start = if b == COMMA {
                    Some(0)
                } else {
                    None
                };
                assert(s.take(self.dropped@ as int) =~= s.take(d + i + 1));
                return Some(e);
            }
            assert(elements(s.take(d + i + 1), lvl) == p0);
        }
        assert(s.take(self.dropped@ + self.pos) =~= s);
        None
    }

    /// Whether every complete element of the stream has been handed out.
    pub open spec fn drained(&self) -> bool {
        self.produced() == elements(self.stream(), self.level())
    }

    /// Decodes the next complete element. `Ok(None)` when there is none yet;
    /// an element that is not valid JSON is an error, and is not retried.
    pub fn next(&mut self) -> (r: Result<Option<serde_json::Value>, JsonStreamError>)
        requires
            old(self).wf(),
        ensures
            final(self).wf(),
            final(self).stream() == old(self).stream(),
            final(self).level() == old(self).level(),
            old(self).produced().len() <= elements(old(self).stream(), old(self).level()).len(),
            ({
                let all = elements(old(self).stream(), old(self).level());
                let k = old(self).produced().len();
                if k < all.len() {
                    &&& final(self).produced() == old(self).produced().push(all[k as int])
                    &&& r is Ok ==> r->Ok_0 is Some
                    &&& (r is Ok) <==> json_accepts(all[k as int])
                    &&& r is Err ==> r->Err_0 is JsonError
                } else {
                    &&& r matches Ok(None)
                    &&& final(self).produced() == old(self).produced()
                    &&& final(self).held() == old(self).held()
                }
            }),
    {
        match self.next_slice() {
            None => Ok(None),
            Some(e) => match decode_value(e.as_slice()) {
                Ok(v) => Ok(Some(v)),
                Err(err) => Err(JsonStreamError::JsonError(err)),
            },
        }
    }
}

/// However the bytes of a stream were split into pushes (one byte at a time,
/// or all at once), two extractors at the same level that have received the
/// same bytes, and have handed out every complete element, have handed out the
/// same elements, in the same order: those of the whole stream.
pub proof fn lemma_split_invariance(x: PartialJson, y: PartialJson)
    requires
        x.wf(),
        y.wf(),
        x.stream() == y.stream(),
        x.level() == y.level(),
        x.drained(),
        y.drained(),
    ensures
        x.produced() == y.produced(),
        x.produced() == elements(x.stream(), x.level()),
{
}

/// The scanner's state inside an element of a top-level array, before any of
/// its bytes (where it started does not matter here).
pub open spec fn inside() -> Scan {
    Scan { depth: 1, in_str: false, esc: false, start: None }
}

/// The scanner's state after the bytes of `e`, read inside a top-level array.
pub open spec fn run(e: Seq<u8>) -> Scan
    decreases e.len(),
{
    if e.len() == 0 {
        inside()
    } else {
        scan_step(run(e.drop_last()), e.last(), 0, 1)
    }
}

/// A value's text that can stand as an element of a top-level array: not
/// blank, no byte of it ends an element, and it leaves the scanner back at the
/// array's depth, outside any string. The text of every JSON value is such.
pub open spec fn self_contained(e: Seq<u8>) -> bool {
    &&& !is_blank(e)
    &&& forall|k: int| 0 <= k < e.len() ==> !ends_element(#[trigger] run(e.take(k)), e[k], 1)
    &&& run(e).depth == 1
    &&& !run(e).in_str
    &&& !run(e).esc
}

/// `[` followed by each of `es`, each followed by a comma.
pub open spec fn lead(es: Seq<Seq<u8>>) -> Seq<u8>
    decreases es.len(),
{
    if es.len() == 0 {
        seq![91u8]
    } else {
        lead(es.drop_last()) + es.last() + seq![COMMA]
    }
}

/// The JSON array of the element texts `es`: `[e1,e2,...,en]`, or `[]`.
pub open spec fn array_bytes(es: Seq<Seq<u8>>) -> Seq<u8> {
    if es.len() == 0 {
        seq![91u8, 93u8]
    } else {
        lead(es.drop_last()) + es.last() + seq![93u8]
    }
}

/// The scanner's state right after `[` or a comma of a top-level array, the
/// next element starting at `n`.
pub open spec fn fresh(n: nat) -> Scan {
    Scan { depth: 1, in_str: false, esc: false, start: Some(n) }
}

proof fn lemma_run_inside(p: Seq<u8>, e: Seq<u8>, k: nat)
    requires
        scan(p, 1) == fresh(p.len()),
        self_contained(e),
        k <= e.len(),
    ensures
        scan(p + e.take(k as int), 1) == (Scan { start: Some(p.len()), ..run(e.take(k as int)) }),
        run(e.take(k as int)).depth >= 1,
        elements(p + e.take(k as int), 1) == elements(p, 1),
    decreases k,
{
    if k == 0 {
        assert(p + e.take(0) =~= p);
        assert(e.take(0) =~= Seq::<u8>::empty());
    } else {
        let j = (k - 1) as nat;
        lemma_run_inside(p, e, j);
        let s = p + e.take(k as int);
        assert(s.drop_last() =~= p + e.take(j as int));
        assert(s.last() == e[j as int]);
        assert(e.take(k as int).drop_last() =~= e.take(j as int));
        assert(e.take(k as int).last() == e[j as int]);
        assert(!ends_element(run(e.take(j as int)), e[j as int], 1));
    }
}

proof fn lemma_one_element(p: Seq<u8>, e: Seq<u8>, sep: u8)
    requires
        scan(p, 1) == fresh(p.len()),
        self_contained(e),
        sep == COMMA || sep == 93,
    ensures
        elements(p + e + seq![sep], 1) == elements(p, 1).push(e),
        sep == COMMA ==> scan(p + e + seq![sep], 1) == fresh((p + e + seq![sep]).len()),
{
    lemma_run_inside(p, e, e.len());
    assert(e.take(e.len() as int) =~= e);
    let s = p + e + seq![sep];
    assert(s.drop_last() =~= p + e);
    assert(s.last() == sep);
    assert((p + e).subrange(p.len() as int, (p + e).len() as int) =~= e);
}

proof fn lemma_lead(es: Seq<Seq<u8>>)
    requires
        forall|i: int| 0 <= i < es.len() ==> self_contained(#[trigger] es[i]),
    ensures
        scan(lead(es), 1) == fresh(lead(es).len()),
        elements(lead(es), 1) == es,
    decreases es.len(),
{
    if es.len() == 0 {
        let s = seq![91u8];
        assert(lead(es) == s);
        assert(s.drop_last() =~= Seq::<u8>::empty());
        assert(s.last() == 91u8);
        assert(scan(s.drop_last(), 1) == scan_init(1));
        assert(elements(s.drop_last(), 1) == Seq::<Seq<u8>>::empty());
        assert(es =~= Seq::<Seq<u8>>::empty());
    } else {
        let init = es.drop_last();
        assert forall|i: int| 0 <= i < init.len() implies self_contained(#[trigger] init[i]) by {
            assert(init[i] == es[i]);
        }
        lemma_lead(init);
        assert(self_contained(es[es.len() - 1]));
        lemma_one_element(lead(init), es.last(), COMMA);
        assert(init.push(es.last()) =~= es);
    }
}

/// Round trip: the JSON array of element texts, each the text of a value (as
/// a serializer writes them), read at level 1 gives back exactly those texts,
/// in order, however its bytes are then split into chunks.
pub proof fn lemma_array_round_trip(es: Seq<Seq<u8>>)
    requires
        forall|i: int| 0 <= i < es.len() ==> self_contained(#[trigger] es[i]),
    ensures
        elements(array_bytes(es), 1) == es,
{
    if es.len() == 0 {
        let s = seq![91u8, 93u8];
        let p = seq![91u8];
        assert(s.drop_last() =~= p);
        assert(p.drop_last() =~= Seq::<u8>::empty());
        assert(p.last() == 91u8);
        assert(s.last() == 93u8);
        assert(scan(p.drop_last(), 1) == scan_init(1));
        assert(elements(p.drop_last(), 1) == Seq::<Seq<u8>>::empty());
        assert(p.subrange(1, 1) =~= Seq::<u8>::empty());
        assert(elements(p, 1) == Seq::<Seq<u8>>::empty());
        assert(es =~= Seq::<Seq<u8>>::empty());
    } else {
        let init = es.drop_last();
        assert forall|i: int| 0 <= i < init.len() implies self_contained(#[trigger] init[i]) by {
            assert(init[i] == es[i]);
        }
        lemma_lead(init);
        assert(self_contained(es[es.len() - 1]));
        lemma_one_element(lead(init), es.last(), 93);
        assert(init.push(es.last()) =~= es);
    }
}

} // verus!
