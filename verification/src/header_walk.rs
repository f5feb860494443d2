//! Resolving the block hashes of a sorted list of heights.
//!
//! The REST interface looks up one block hash per request, but serves whole
//! runs of block headers at a time, walking from a given block towards the
//! tip. When many heights are wanted, anchoring on the first of them and
//! walking the headers from there takes far fewer requests than looking up
//! every hash on its own.
//!
//! The caller makes the requests: [`plan_lookup`] says which way to go, and
//! for a walk, [`HeaderWalk`] says where each headers request starts and
//! takes in the headers that come back.
use crate::sync_plan::{sorted, strictly_increasing};
use vstd::prelude::*;

verus! {

/// The most headers one REST request returns.
pub const MAX_HEADERS_PER_REQUEST: usize = 2000;

/// How many headers to ask for when `count` are wanted: no more than one
/// request returns.
pub fn headers_per_request(count: usize) -> (n: usize)
    ensures
        n == if count <= MAX_HEADERS_PER_REQUEST {
            count
        } else {
            MAX_HEADERS_PER_REQUEST
        },
{
    if count <= MAX_HEADERS_PER_REQUEST {
        count
    } else {
        MAX_HEADERS_PER_REQUEST
    }
}

/// The size of a serialized block header.
pub const HEADER_SIZE: usize = 80;

/// The block hash of a serialized block header (double SHA-256 of its bytes,
/// in internal byte order).
pub uninterp spec fn header_hash(raw: Seq<u8>) -> Seq<u8>;

/// What the header walk reads of a block header: its own hash and the hash
/// of the block it builds on, both in internal byte order.
#[derive(Clone, Copy, Debug, PartialEq, Eq)]
pub struct HeaderLink {
    pub hash: [u8; 32],
    pub prev_blockhash: [u8; 32],
}

/// Decodes one serialized header with `bitcoin::consensus::deserialize` into a
/// `bitcoin::block::Header`, and reads its `block_hash()` and `prev_blockhash`.
/// The claim: decoding succeeds exactly on 80 bytes (every field of a header
/// takes any value, and `deserialize` refuses input it does not consume
/// entirely); the hash is [`header_hash`] of the bytes, and the previous
/// block's hash is bytes 4 to 36, which follow the 4-byte version.
#[verifier::external_body]
fn decode_header(raw: &[u8]) -> (link: Option<HeaderLink>)
    ensures
        link is Some <==> raw@.len() == HEADER_SIZE,
        link matches Some(l) ==> l.hash@ == header_hash(raw@) && l.prev_blockhash@
            == raw@.subrange(4, 36),
{
    match bitcoin::consensus::deserialize::<bitcoin::block::Header>(raw) {
        Ok(header) => Some(
            HeaderLink {
                hash: bitcoin::hashes::Hash::to_byte_array(header.block_hash()),
                prev_blockhash: bitcoin::hashes::Hash::to_byte_array(header.prev_blockhash),
            },
        ),
        Err(_) => None,
    }
}

/// The `i`-th serialized header in `bytes`.
pub open spec fn header_bytes(bytes: Seq<u8>, i: int) -> Seq<u8> {
    bytes.subrange(i * HEADER_SIZE, i * HEADER_SIZE + HEADER_SIZE)
}

/// Whether `link` is what the serialized header `raw` says.
pub open spec fn describes(link: HeaderLink, raw: Seq<u8>) -> bool {
    &&& link.hash@ == header_hash(raw)
    &&& link.prev_blockhash@ == raw.subrange(4, 36)
}

/// Splits a run of serialized headers, as the REST interface sends them, into
/// what the walk reads of each. Fails when the length is not a multiple of
/// the header size.
pub fn parse_headers(bytes: &[u8]) -> (links: Option<Vec<HeaderLink>>)
    ensures
        links is Some <==> bytes@.len() % (HEADER_SIZE as nat) == 0,
        links matches Some(l) ==> {
            &&& l@.len() == bytes@.len() / (HEADER_SIZE as nat)
            &&& forall|i: int|
                0 <= i < l@.len() ==> describes(#[trigger] l@[i], header_bytes(bytes@, i))
        },
{
    if bytes.len() % HEADER_SIZE != 0 {
        return None;
    }
    let len = bytes.len();
    let count = len / HEADER_SIZE;
    let mut links: Vec<HeaderLink> = Vec::new();
    let mut i: usize = 0;
    while i < count
        invariant
            count == bytes@.len() / (HEADER_SIZE as nat),
            len == bytes@.len(),
            bytes@.len() % (HEADER_SIZE as nat) == 0,
            i <= count,
            links@.len() == i,
            forall|j: int| 0 <= j < i ==> describes(#[trigger] links@[j], header_bytes(bytes@, j)),
        decreases count - i,
    {
        assert(i * 80 + 80 <= len) by (nonlinear_arith)
            requires
                i < count,
                count == len / 80,
        ;
        let start = i * HEADER_SIZE;
        let raw = &bytes[start..start + HEADER_SIZE];
        let link = decode_header(raw);
        match link {
            Some(l) => {
                links.push(l);
            },
            None => {
                return None;
            },
        }
        i = i + 1;
    }
    Some(links)
}


/// How many requests a walk from `first` to `last` takes: one to look up the
/// hash of `first`, and one per run of headers, each run after the first
/// starting on the last header of the one before.
pub open spec fn walk_cost(first: i64, last: i64) -> int {
    let span = last - first + 1;
    let step = MAX_HEADERS_PER_REQUEST - 1;
    1 + (span + step - 1) / step
}

/// How the block hashes of a list of heights are looked up.
#[derive(Clone, Copy, Debug, PartialEq, Eq, Structural)]
pub enum LookupPlan {
    /// No height is wanted.
    Nothing,
    /// Look up the hash of every height on its own.
    EachHeight,
    /// Look up the hash of the first height, then walk the headers from it.
    WalkHeaders,
}

/// Picks the cheaper way to resolve the hashes of `heights`: a walk when it
/// takes fewer requests than there are heights, otherwise one lookup per
/// height.
pub fn plan_lookup(heights: &[i64]) -> (plan: LookupPlan)
    requires
        sorted(heights@),
        heights@.len() > 0 ==> heights@.last() - heights@[0] + 1 <= i64::MAX,
        heights@.len() > 0 ==> heights@.last() - heights@[0] + 1 <= usize::MAX,
    ensures
        heights@.len() == 0 ==> plan == LookupPlan::Nothing,
        heights@.len() > 0 ==> (plan == LookupPlan::EachHeight <==> walk_cost(
            heights@[0],
            heights@.last(),
        ) >= heights@.len()),
        heights@.len() > 0 ==> (plan == LookupPlan::WalkHeaders <==> walk_cost(
            heights@[0],
            heights@.last(),
        ) < heights@.len()),
        heights@.len() > 0 ==> (plan == LookupPlan::WalkHeaders <==> 1 + (heights@.last()
            - heights@[0] + 1 + (MAX_HEADERS_PER_REQUEST - 1) - 1) / ((MAX_HEADERS_PER_REQUEST
            - 1) as int) < heights@.len()),
{
    let n = heights.len();
    if n == 0 {
        return LookupPlan::Nothing;
    }
    let first = heights[0];
    let last = heights[n - 1];
    assert(first <= last) by {
        assert(heights@[0] <= heights@[n - 1]);
    }
    let span = (last - first + 1) as usize;
    let step = MAX_HEADERS_PER_REQUEST - 1;
    let runs = span / step + if span % step != 0 {
        1
    } else {
        0
    };
    assert(runs == (span + step - 1) / (step as int)) by (nonlinear_arith)
        requires
            step == 1999,
            runs == span / step + if span % step != 0 {
                1int
            } else {
                0int
            },
    ;
    if runs >= n - 1 {
        LookupPlan::EachHeight
    } else {
        LookupPlan::WalkHeaders
    }
}


/// The heights of the sorted list `heights`, each once: what a header walk
/// resolves, since it resolves a repeated height only once.
pub fn distinct_heights(heights: &[i64]) -> (distinct: Vec<i64>)
    requires
        sorted(heights@),
    ensures
        strictly_increasing(distinct@),
        forall|h: i64| #[trigger] distinct@.contains(h) <==> heights@.contains(h),
        heights@.len() > 0 ==> distinct@.len() > 0 && distinct@[0] == heights@[0]
            && distinct@.last() == heights@.last(),
{
    let mut distinct: Vec<i64> = Vec::new();
    let mut i: usize = 0;
    while i < heights.len()
        invariant
            sorted(heights@),
            i <= heights@.len(),
            strictly_increasing(distinct@),
            forall|h: i64|
                #[trigger] distinct@.contains(h) <==> heights@.subrange(0, i as int).contains(h),
            i > 0 ==> distinct@.len() > 0 && distinct@[0] == heights@[0] && distinct@.last()
                == heights@[i - 1],
            i == 0 ==> distinct@.len() == 0,
        decreases heights@.len() - i,
    {
        let h = heights[i];
        let ghost before = distinct@;
        assert(heights@.subrange(0, i + 1) =~= heights@.subrange(0, i as int).push(h));
        if distinct.len() == 0 || distinct[distinct.len() - 1] != h {
            distinct.push(h);
            proof {
                if before.len() > 0 {
                    assert(before.last() == heights@[i - 1]);
                    assert(heights@[i - 1] <= h);
                }
                assert forall|a: int, b: int| 0 <= a < b < distinct@.len() implies distinct@[a]
                    < distinct@[b] by {
                    if b == distinct@.len() - 1 && a < before.len() - 1 {
                        assert(before[a] < before[before.len() - 1]);
                    }
                }
                let pre = heights@.subrange(0, i as int);
                let post = heights@.subrange(0, i + 1);
                assert forall|x: i64| #[trigger] distinct@.contains(x) <==> post.contains(x) by {
                    if distinct@.contains(x) {
                        let k = choose|k: int| 0 <= k < distinct@.len() && distinct@[k] == x;
                        if k < before.len() {
                            assert(before[k] == x);
                            assert(before.contains(x));
                            assert(pre.contains(x));
                            let j = choose|j: int| 0 <= j < pre.len() && pre[j] == x;
                            assert(post[j] == x);
                        } else {
                            assert(post[i as int] == x);
                        }
                    }
                    if post.contains(x) {
                        let j = choose|j: int| 0 <= j < post.len() && post[j] == x;
                        if j < i {
                            assert(pre[j] == x);
                            assert(pre.contains(x));
                            assert(before.contains(x));
                            let k = choose|k: int| 0 <= k < before.len() && before[k] == x;
                            assert(distinct@[k] == x);
                        } else {
                            assert(distinct@[distinct@.len() - 1] == x);
                        }
                    }
                }
            }
        } else {
            proof {
                let pre = heights@.subrange(0, i as int);
                let post = heights@.subrange(0, i + 1);
                assert forall|x: i64| #[trigger] distinct@.contains(x) <==> post.contains(x) by {
                    if distinct@.contains(x) {
                        assert(pre.contains(x));
                        let j = choose|j: int| 0 <= j < pre.len() && pre[j] == x;
                        assert(post[j] == x);
                    }
                    if post.contains(x) {
                        let j = choose|j: int| 0 <= j < post.len() && post[j] == x;
                        if j < i {
                            assert(pre[j] == x);
                            assert(pre.contains(x));
                        } else {
                            assert(distinct@[distinct@.len() - 1] == h);
                        }
                    }
                }
            }
        }
        i = i + 1;
    }
    assert(heights@.subrange(0, heights@.len() as int) =~= heights@);
    distinct
}

/// Whether two block hashes are the same.
pub fn same_hash(a: &[u8; 32], b: &[u8; 32]) -> (eq: bool)
    ensures
        eq == (a@ == b@),
{
    let mut i: usize = 0;
    while i < 32
        invariant
            i <= 32,
            a@.len() == 32,
            b@.len() == 32,
            forall|j: int| 0 <= j < i ==> a@[j] == b@[j],
        decreases 32 - i,
    {
        if a[i] != b[i] {
            return false;
        }
        i = i + 1;
    }
    assert(a@ =~= b@);
    true
}

/// Whether header `k` builds on header `k - 1`.
pub open spec fn builds_on_previous(headers: Seq<HeaderLink>, k: int) -> bool {
    headers[k].prev_blockhash@ == headers[k - 1].hash@
}

/// Whether every header builds on the one before it.
pub open spec fn chained(headers: Seq<HeaderLink>) -> bool {
    forall|k: int| 1 <= k < headers.len() ==> builds_on_previous(headers, k)
}

/// Whether header `k` is the first that does not build on the one before it.
pub open spec fn first_break(headers: Seq<HeaderLink>, k: int) -> bool {
    &&& 1 <= k < headers.len()
    &&& !builds_on_previous(headers, k)
    &&& forall|m: int| 1 <= m < k ==> builds_on_previous(headers, m)
}

/// What the node sent that the walk cannot use.
#[derive(Clone, Copy, Debug)]
pub enum WalkError {
    /// The header at `height` doesn't build on the header before it.
    Unlinked { height: i64 },
    /// No header came after the anchor `hash` at `height`: the walk can't go
    /// any further.
    NoProgress { height: i64, hash: [u8; 32] },
}

/// A walk over the block headers from the first wanted height to the last,
/// collecting the hash of every wanted height on the way.
///
/// Each headers response starts at the anchor, the block the walk has
/// reached; the last header of a response becomes the next anchor.
pub struct HeaderWalk {
    heights: Vec<i64>,
    next: usize,
    height: i64,
    anchor: [u8; 32],
    resolved: Vec<(i64, [u8; 32])>,
}

/// How a successful step takes the walk from `old` to `new` on `headers`:
/// the headers chain and go past the anchor, the last of them becomes the
/// anchor, and the wanted heights they cover are resolved, in order, to the
/// hashes of the headers at those heights. The wanted heights resolved
/// before stay as they were, and the next one to resolve lies beyond the new
/// anchor.
pub open spec fn walk_advanced(old: HeaderWalk, new: HeaderWalk, headers: Seq<HeaderLink>) -> bool {
    &&& chained(headers)
    &&& headers.len() >= 2
    &&& new.wanted() == old.wanted()
    &&& new.at() == old.at() + headers.len() - 1
    &&& new.anchor_hash() == headers.last().hash
    &&& old.found().len() <= new.found().len()
    &&& new.found().subrange(0, old.found().len() as int) == old.found()
    &&& forall|j: int|
        old.found().len() <= j < new.found().len() ==> {
            let h = #[trigger] new.wanted()[j];
            &&& new.found()[j] == (h, headers[h - old.at()].hash)
            &&& old.at() <= h <= new.at()
        }
    &&& new.found().len() < new.wanted().len() ==> new.wanted()[new.found().len() as int]
        > new.at()
}

impl HeaderWalk {
    /// The heights whose hashes are wanted, in increasing order.
    pub closed spec fn wanted(&self) -> Seq<i64> {
        self.heights@
    }

    /// The heights resolved so far with their hashes, in increasing order.
    pub closed spec fn found(&self) -> Seq<(i64, [u8; 32])> {
        self.resolved@
    }

    /// The height of the anchor, the block the walk has reached.
    pub closed spec fn at(&self) -> i64 {
        self.height
    }

    /// The hash of the anchor.
    pub closed spec fn anchor_hash(&self) -> [u8; 32] {
        self.anchor
    }

    /// The last wanted height, where the walk ends.
    pub open spec fn last(&self) -> i64 {
        self.wanted().last()
    }

    /// The walk's invariant: the wanted heights up to the anchor are
    /// resolved, in order, and none beyond it.
    pub closed spec fn wf(&self) -> bool {
        &&& self.heights@.len() > 0
        &&& strictly_increasing(self.heights@)
        &&& self.heights@[0] <= self.height
        &&& self.heights@.last() - self.heights@[0] + 1 <= i64::MAX
        &&& self.heights@.last() - self.heights@[0] + 1 <= usize::MAX
        &&& self.next <= self.heights@.len()
        &&& self.resolved@.len() == self.next
        &&& forall|j: int|
            0 <= j < self.next ==> (#[trigger] self.resolved@[j]).0 == self.heights@[j]
                && self.heights@[j] <= self.height
        &&& forall|j: int|
            self.next <= j < self.heights@.len() ==> #[trigger] self.heights@[j] >= self.height
    }

    /// Starts a walk at the first of `heights`, whose block hash is
    /// `first_hash`.
    pub fn new(heights: Vec<i64>, first_hash: [u8; 32]) -> (walk: HeaderWalk)
        requires
            heights@.len() > 0,
            strictly_increasing(heights@),
            heights@.last() - heights@[0] + 1 <= i64::MAX,
            heights@.last() - heights@[0] + 1 <= usize::MAX,
        ensures
            walk.wf(),
            walk.wanted() == heights@,
            walk.found() == Seq::<(i64, [u8; 32])>::empty(),
            walk.at() == heights@[0],
            walk.anchor_hash() == first_hash,
    {
        let first = heights[0];
        HeaderWalk { heights, next: 0, height: first, anchor: first_hash, resolved: Vec::new() }
    }

    /// The height of the anchor.
    pub fn height(&self) -> (h: i64)
        ensures
            h == self.at(),
    {
        self.height
    }

    /// The hash of the anchor, where the next headers request starts.
    pub fn anchor(&self) -> (hash: [u8; 32])
        ensures
            hash == self.anchor_hash(),
    {
        self.anchor
    }

    /// How many headers, counting the anchor, lie between the anchor and the
    /// last wanted height.
    pub fn remaining(&self) -> (n: usize)
        requires
            self.wf(),
            self.at() <= self.last(),
        ensures
            n == self.last() - self.at() + 1,
    {
        let last = self.heights[self.heights.len() - 1];
        (last - self.height + 1) as usize
    }

    /// Takes in a run of headers that starts at the anchor. Every header must
    /// build on the one before it, and at least one must follow the anchor.
    /// The wanted heights among them are resolved to their hashes, and the
    /// last header becomes the anchor. Returns whether the walk has reached
    /// the last wanted height.
    pub fn step(&mut self, headers: &[HeaderLink]) -> (r: Result<bool, WalkError>)
        requires
            old(self).wf(),
            old(self).at() <= old(self).last(),
            old(self).at() + headers@.len() <= i64::MAX,
            headers@.len() <= i64::MAX,
        ensures
            final(self).wf(),
            final(self).wanted() == old(self).wanted(),
            final(self).found().len() <= final(self).wanted().len(),
            forall|j: int|
                0 <= j < final(self).found().len() ==> (#[trigger] final(self).found()[j]).0
                    == final(self).wanted()[j],
            match r {
                Err(WalkError::Unlinked { height }) => {
                    &&& exists|k: int| first_break(headers@, k) && height == old(self).at() + k
                    &&& *final(self) == *old(self)
                },
                Err(WalkError::NoProgress { height, hash }) => {
                    &&& chained(headers@)
                    &&& headers@.len() <= 1
                    &&& height == old(self).at()
                    &&& hash == old(self).anchor_hash()
                    &&& *final(self) == *old(self)
                },
                Ok(done) => {
                    &&& walk_advanced(*old(self), *final(self), headers@)
                    &&& chained(headers@)
                    &&& headers@.len() >= 2
                    &&& final(self).at() == old(self).at() + headers@.len() - 1
                    &&& final(self).anchor_hash() == headers@[headers@.len() - 1].hash
                    &&& final(self).found().subrange(0, old(self).found().len() as int)
                        == old(self).found()
                    &&& forall|j: int|
                        old(self).found().len() <= j < final(self).found().len() ==> {
                            let h = #[trigger] final(self).wanted()[j];
                            &&& final(self).found()[j] == (h, headers@[h - old(self).at()].hash)
                            &&& old(self).at() <= h <= final(self).at()
                        }
                    &&& forall|j: int|
                        0 <= j < old(self).wanted().len() && old(self).at()
                            <= #[trigger] old(self).wanted()[j] <= final(self).at()
                            ==> j < final(self).found().len()
                    &&& done == (final(self).at() >= final(self).last())
                    &&& done ==> final(self).found().len() == final(self).wanted().len()
                },
            },
    {
        let n = headers.len();
        let mut k: usize = 1;
        while k < n
            invariant
                1 <= k,
                n == headers@.len(),
                n <= i64::MAX,
                self.height + n <= i64::MAX,
                *self == *old(self),
                old(self).wf(),
                forall|m: int| 1 <= m < k && m < n ==> builds_on_previous(headers@, m),
            decreases n - k,
        {
            if !same_hash(&headers[k].prev_blockhash, &headers[k - 1].hash) {
                assert(first_break(headers@, k as int));
                return Err(WalkError::Unlinked { height: self.height + k as i64 });
            }
            k = k + 1;
        }
        if n <= 1 {
            return Err(WalkError::NoProgress { height: self.height, hash: self.anchor });
        }
        let base = self.height;
        let ghost old_next = self.next as int;
        let ghost old_resolved = self.resolved@;
        let mut offset: usize = 0;
        while offset < n
            invariant
                self.heights@ == old(self).heights@,
                self.height == base,
                base == old(self).height,
                self.anchor == old(self).anchor,
                old(self).wf(),
                old_next == old(self).next,
                old_resolved == old(self).resolved@,
                n == headers@.len(),
                n <= i64::MAX,
                base + n <= i64::MAX,
                offset <= n,
                old_next <= self.next <= self.heights@.len(),
                self.resolved@.len() == self.next,
                self.resolved@.subrange(0, old_next) == old_resolved,
                forall|j: int|
                    old_next <= j < self.next ==> {
                        let h = #[trigger] self.heights@[j];
                        &&& self.resolved@[j] == (h, headers@[h - base].hash)
                        &&& base <= h < base + offset
                    },
                forall|j: int|
                    self.next <= j < self.heights@.len() ==> #[trigger] self.heights@[j] >= base
                        + offset,
            decreases n - offset,
        {
            let hh = base + offset as i64;
            // Every wanted height below `hh` is resolved already, so the next
            // wanted one is either this header's or a later one.
            if self.next < self.heights.len() && self.heights[self.next] == hh {
                let ghost before = self.resolved@;
                self.resolved.push((hh, headers[offset].hash));
                assert(self.resolved@.subrange(0, old_next) =~= before.subrange(0, old_next));
                self.next = self.next + 1;
                assert forall|j: int| self.next <= j < self.heights@.len() implies #[trigger] self.heights@[j]
                    >= base + offset + 1 by {
                    assert(self.heights@[self.next - 1] < self.heights@[j]);
                }
            } else {
                assert forall|j: int| self.next <= j < self.heights@.len() implies #[trigger] self.heights@[j]
                    >= base + offset + 1 by {
                    if self.heights@[self.next as int] == hh {
                    } else {
                        assert(self.heights@[self.next as int] > hh);
                        if j > self.next {
                            assert(self.heights@[self.next as int] < self.heights@[j]);
                        }
                    }
                }
            }
            offset = offset + 1;
        }
        let last = self.heights[self.heights.len() - 1];
        self.height = base + (n - 1) as i64;
        self.anchor = headers[n - 1].hash;
        let done = self.height >= last;
        proof {
            assert forall|j: int| 0 <= j < self.next implies (#[trigger] self.resolved@[j]).0
                == self.heights@[j] && self.heights@[j] <= self.height by {
                if j < old_next {
                    assert(self.resolved@[j] == self.resolved@.subrange(0, old_next)[j]);
                }
            }
            if done && self.next < self.heights@.len() {
                assert(self.heights@[self.next as int] <= last);
            }
        }
        Ok(done)
    }

    /// The heights resolved, with their hashes.
    pub fn into_resolved(self) -> (resolved: Vec<(i64, [u8; 32])>)
        ensures
            resolved@ == self.found(),
    {
        self.resolved
    }
}


/// Every hash a walk step resolves is the block hash of the serialized header
/// at that height in the response: when the headers were parsed from
/// `bytes`, the hash found for wanted height `h` is [`header_hash`] of the
/// header `h - old.at()` places after the anchor.
pub proof fn law_resolved_hashes_are_header_hashes(
    old: HeaderWalk,
    new: HeaderWalk,
    bytes: Seq<u8>,
    headers: Seq<HeaderLink>,
    j: int,
)
    requires
        walk_advanced(old, new, headers),
        headers.len() == bytes.len() / (HEADER_SIZE as nat),
        forall|i: int| 0 <= i < headers.len() ==> describes(#[trigger] headers[i], header_bytes(bytes, i)),
        old.found().len() <= j < new.found().len(),
    ensures
        new.found()[j].1@ == header_hash(header_bytes(bytes, new.found()[j].0 - old.at())),
        new.found()[j].0 == new.wanted()[j],
{
    let h = new.wanted()[j];
    assert(new.found()[j] == (h, headers[h - old.at()].hash));
    assert(describes(headers[h - old.at()], header_bytes(bytes, h - old.at())));
}


/// The headers requests a walk makes from anchor height `at` to `last` when
/// every response holds as many headers as were asked for: all that remain,
/// up to `MAX_HEADERS_PER_REQUEST`, the first being the anchor itself.
pub open spec fn walk_requests(at: int, last: int) -> nat
    decreases last - at,
{
    if at >= last {
        0
    } else {
        let asked = if last - at + 1 <= MAX_HEADERS_PER_REQUEST {
            last - at + 1
        } else {
            MAX_HEADERS_PER_REQUEST as int
        };
        1 + walk_requests(at + asked - 1, last)
    }
}

proof fn lemma_walk_requests(at: int, last: int)
    requires
        at <= last,
    ensures
        walk_requests(at, last) == (last - at + 1998) / 1999,
    decreases last - at,
{
    if at < last {
        let d = last - at;
        if d + 1 <= MAX_HEADERS_PER_REQUEST {
            assert(walk_requests(last, last) == 0);
            assert((d + 1998) / 1999 == 1) by {
                vstd::arithmetic::div_mod::lemma_fundamental_div_mod(d + 1998, 1999);
                vstd::arithmetic::div_mod::lemma_mod_bound(d + 1998, 1999);
            }
        } else {
            lemma_walk_requests(at + 1999, last);
            assert((d - 1999 + 1998) / 1999 == (d + 1998) / 1999 - 1) by {
                vstd::arithmetic::div_mod::lemma_div_plus_one(d - 1999 + 1998, 1999);
            }
        }
    }
}

/// A walk from `first` to `last` makes one headers request per 1999 blocks
/// after the first, so together with the lookup of the first hash it takes
/// at most [`walk_cost`] requests: from genesis to height 899,999, 452
/// requests in place of 900,000 lookups.
pub proof fn law_walk_within_cost(first: i64, last: i64)
    requires
        first < last,
    ensures
        walk_requests(first as int, last as int) == (last - first + 1998) / 1999,
        1 + walk_requests(first as int, last as int) <= walk_cost(first, last),
{
    lemma_walk_requests(first as int, last as int);
    let d = last - first;
    vstd::arithmetic::div_mod::lemma_div_is_ordered(d + 1998, d + 1999, 1999);
}

/// A step on a full response, holding [`headers_per_request`] of the
/// remaining headers, is one of the requests [`walk_requests`] counts: the
/// rest of the walk takes one request fewer.
pub proof fn law_step_takes_one_request(old: HeaderWalk, new: HeaderWalk, headers: Seq<HeaderLink>)
    requires
        walk_advanced(old, new, headers),
        old.at() < old.last(),
        headers.len() == if old.last() - old.at() + 1 <= MAX_HEADERS_PER_REQUEST {
            old.last() - old.at() + 1
        } else {
            MAX_HEADERS_PER_REQUEST as int
        },
    ensures
        walk_requests(old.at() as int, old.last() as int) == 1 + walk_requests(
            new.at() as int,
            new.last() as int,
        ),
{
}


/// After a successful step the walk stands on the last header of the
/// response, whatever heights were wanted: the anchor height moved by one
/// less than the number of headers, and the anchor hash is the hash of the
/// header at that height, the last one.
pub proof fn law_step_anchor_is_last_header(
    old: HeaderWalk,
    new: HeaderWalk,
    headers: Seq<HeaderLink>,
)
    requires
        walk_advanced(old, new, headers),
    ensures
        headers.len() >= 2,
        new.at() == old.at() + headers.len() - 1,
        new.anchor_hash() == headers[new.at() - old.at()].hash,
        new.anchor_hash() == headers[headers.len() - 1].hash,
        new.at() > old.at(),
{
}

/// A step resolves every wanted height its headers cover, each to the hash
/// of the header at that height, and no other: the heights resolved by the
/// step are exactly the wanted heights from the old anchor to the new one.
pub proof fn law_step_resolves_covered_heights(
    old: HeaderWalk,
    new: HeaderWalk,
    headers: Seq<HeaderLink>,
    j: int,
)
    requires
        walk_advanced(old, new, headers),
        forall|i: int| 0 <= i < old.found().len() ==> #[trigger] old.found()[i].0 == old.wanted()[i],
        strictly_increasing(old.wanted()),
        old.found().len() < old.wanted().len() ==> old.wanted()[old.found().len() as int] >= old.at(),
        0 <= j < new.wanted().len(),
    ensures
        old.found().len() <= j < new.found().len() ==> new.found()[j].1 == headers[new.wanted()[j]
            - old.at()].hash,
        old.found().len() <= j && old.at() <= new.wanted()[j] <= new.at() ==> j < new.found().len(),
        j >= new.found().len() ==> new.wanted()[j] > new.at(),
{
    if j >= new.found().len() && new.found().len() < new.wanted().len() {
        if j > new.found().len() {
            assert(new.wanted()[new.found().len() as int] < new.wanted()[j]);
        }
    }
    if old.found().len() <= j && old.at() <= new.wanted()[j] <= new.at() && j >= new.found().len() {
        if j > new.found().len() {
            assert(new.wanted()[new.found().len() as int] < new.wanted()[j]);
        }
    }
}

/// The walk cost `plan_lookup` weighs is the lookup of the first hash plus
/// one headers request per stride of `MAX_HEADERS_PER_REQUEST - 1` blocks
/// (each request's first header is the previous one's last), rounded up:
/// enough strides to cover the span of heights, and no more.
pub proof fn law_walk_cost_is_strides_over_span(first: i64, last: i64)
    requires
        first <= last,
    ensures
        (walk_cost(first, last) - 1) * ((MAX_HEADERS_PER_REQUEST - 1) as int) >= last - first + 1,
        (walk_cost(first, last) - 2) * ((MAX_HEADERS_PER_REQUEST - 1) as int) < last - first + 1,
        walk_cost(first, last) == 1 + walk_requests(first as int, last + 1),
{
    let span = last - first + 1;
    vstd::arithmetic::div_mod::lemma_fundamental_div_mod(span + 1998, 1999);
    vstd::arithmetic::div_mod::lemma_mod_bound(span + 1998, 1999);
    lemma_walk_requests(first as int, last + 1);
}
} // verus!
