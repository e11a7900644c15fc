//! The 9P2000.L message handler of the virtio-9p device.
//!
//! A request is decoded and answered here. The two messages that need the
//! host filesystem (walk, which asks whether each path exists, and read,
//! which needs file contents) are answered in two steps: `handle_9p` returns
//! what must be looked up, and `finish_walk` / `finish_read` build the reply
//! from what the host found.
use vstd::prelude::*;
use vstd::slice::slice_subrange;
use std::collections::HashMap;
use crate::le::{get16, get32, get64, le16, le32, le64, push_u16, push_u32, push_u64, read_u16, read_u32, read_u64};
use crate::virtqueue::Queue;

verus! {

broadcast use vstd::std_specs::hash::group_hash_axioms;

/// Name of what `String::from_utf8_lossy` makes of a byte sequence.
pub uninterp spec fn utf8_lossy(bytes: Seq<u8>) -> Seq<char>;

/// Calls `String::from_utf8_lossy`. The result is the name above applied
/// to the bytes; for valid UTF-8 it is exactly the decoded text (the
/// documentation: invalid sequences are replaced, valid ones are kept).
#[verifier::external_body]
pub(crate) fn decode_utf8_lossy(bytes: &[u8]) -> (s: String)
    ensures
        s@ == utf8_lossy(bytes@),
        vstd::utf8::valid_utf8(bytes@) ==> vstd::utf8::encode_utf8(s@) == bytes@,
{
    String::from_utf8_lossy(bytes).into_owned()
}

/// The text that lenient decoding makes of `bytes`: exactly the decoded
/// text where they are valid UTF-8, and the named lossy result otherwise.
pub open spec fn lossy_text(bytes: Seq<u8>) -> Seq<char> {
    if vstd::utf8::valid_utf8(bytes) {
        vstd::utf8::decode_utf8(bytes)
    } else {
        utf8_lossy(bytes)
    }
}

/// Decodes `bytes` leniently as UTF-8.
pub(crate) fn decode_text(bytes: &[u8]) -> (s: String)
    ensures
        s@ == lossy_text(bytes@),
{
    let s = decode_utf8_lossy(bytes);
    proof {
        if vstd::utf8::valid_utf8(bytes@) {
            vstd::utf8::encode_utf8_decode_utf8(s@);
        }
    }
    s
}

/// Message type of the version request.
pub const T_VERSION: u8 = 100;
/// Message type of the attach request.
pub const T_ATTACH: u8 = 104;
/// Message type of the walk request.
pub const T_WALK: u8 = 110;
/// Message type of the legacy open request.
pub const T_OPEN: u8 = 12;
/// Message type of the lopen request.
pub const T_LOPEN: u8 = 112;
/// Message type of the statfs request.
pub const T_STATFS: u8 = 8;
/// Message type of the read request.
pub const T_READ: u8 = 116;
/// Message type used for error replies (answered as type + 1).
pub const T_ERROR: u8 = 6;
/// Largest message size the server agrees to.
pub const MAX_MSIZE: u32 = 8192;

/// The state kept for one fid: the path segments pushed, in order, onto an
/// empty host path, and whether it was opened.
pub struct Fid {
    pub path: Vec<String>,
    pub opened: bool,
}

/// Abstract value of a fid.
pub struct FidView {
    pub path: Seq<Seq<char>>,
    pub opened: bool,
}

/// The path segments as character sequences.
pub open spec fn path_view(p: Seq<String>) -> Seq<Seq<char>> {
    p.map_values(|s: String| s@)
}

impl View for Fid {
    type V = FidView;

    open spec fn view(&self) -> FidView {
        FidView { path: path_view(self.path@), opened: self.opened }
    }
}

/// The virtio-9p device: its queue, status and interrupt registers, mount
/// tag, host root and fid table.
pub struct Virtio9p {
    pub queue: Queue,
    pub status: u8,
    pub isr: u8,
    pub tag: Vec<u8>,
    pub root: Option<String>,
    pub fids: HashMap<u32, Fid>,
}

/// Abstract value of the 9P device.
pub struct Virtio9pView {
    pub queue: Queue,
    pub status: u8,
    pub isr: u8,
    pub tag: Seq<u8>,
    pub root: Option<Seq<char>>,
    pub fids: Map<u32, FidView>,
}

/// The fid table as abstract values.
pub open spec fn fids_view(m: Map<u32, Fid>) -> Map<u32, FidView> {
    m.map_values(|f: Fid| f@)
}

/// The root as a character sequence.
pub open spec fn root_view(r: Option<String>) -> Option<Seq<char>> {
    match r {
        Some(s) => Some(s@),
        None => None,
    }
}

impl View for Virtio9p {
    type V = Virtio9pView;

    open spec fn view(&self) -> Virtio9pView {
        Virtio9pView {
            queue: self.queue,
            status: self.status,
            isr: self.isr,
            tag: self.tag@,
            root: root_view(self.root),
            fids: fids_view(self.fids@),
        }
    }
}

/// The mount tag `host9p`.
pub open spec fn default_tag() -> Seq<u8> {
    seq![104u8, 111, 115, 116, 57, 112]
}

/// A freshly reset 9P device: queue of size 32, no root, no fids.
pub open spec fn initial_device() -> Virtio9pView {
    Virtio9pView {
        queue: Queue {
            size: 32,
            enabled: false,
            desc: 0,
            avail: 0,
            avail_last: 0,
            used: 0,
            staged: 0,
        },
        status: 0,
        isr: 0,
        tag: default_tag(),
        root: None,
        fids: Map::empty(),
    }
}

impl Virtio9p {
    /// A device in its power-on state.
    pub fn new() -> (d: Virtio9p)
        ensures
            d@ == initial_device(),
    {
        let mut tag: Vec<u8> = Vec::new();
        tag.push(104);
        tag.push(111);
        tag.push(115);
        tag.push(116);
        tag.push(57);
        tag.push(112);
        let d = Virtio9p {
            queue: Queue::new(),
            status: 0,
            isr: 0,
            tag,
            root: None,
            fids: HashMap::new(),
        };
        assert(d@.tag =~= default_tag());
        assert(d@.fids =~= Map::<u32, FidView>::empty());
        d
    }
}

impl Default for Virtio9p {
    fn default() -> (d: Virtio9p)
        ensures
            d@ == initial_device(),
    {
        Virtio9p::new()
    }
}

/// A 9P reply: total length, type `id + 1`, tag, payload.
pub open spec fn reply_bytes(id: u8, tag: u16, payload: Seq<u8>) -> Seq<u8> {
    le32((payload.len() + 7) as u32) + seq![(id + 1) as u8] + le16(tag) + payload
}

/// The error reply (ENOENT) for `tag`.
pub open spec fn error_reply(tag: u16) -> Seq<u8> {
    reply_bytes(T_ERROR, tag, le32(2))
}

/// `n` zero bytes.
pub open spec fn zeros(n: nat) -> Seq<u8> {
    Seq::new(n, |i: int| 0u8)
}

/// The text `9P2000.L`.
pub open spec fn version_text() -> Seq<u8> {
    seq![57u8, 80, 50, 48, 48, 48, 46, 76]
}

/// The payload of the version reply: the agreed message size (at most
/// 8192), the protocol name as a 9P string
/// (its byte count, 8, then its bytes).
pub open spec fn version_payload(msize: u32) -> Seq<u8> {
    le32(if msize < MAX_MSIZE { msize } else { MAX_MSIZE }) + le16(8) + version_text()
}

/// The payload of the statfs reply.
pub open spec fn statfs_payload() -> Seq<u8> {
    le32(0x01021997) + le32(8192) + le64(1_000_000) + le64(900_000) + le64(900_000) + le64(
        1_000_000,
    ) + le64(900_000) + le64(0) + le16(256)
}

/// The payload of the open reply: an empty qid and the I/O unit.
pub open spec fn open_payload() -> Seq<u8> {
    zeros(13) + le32(8192)
}

/// Smaller of two integers.
pub open spec fn min_int(a: int, b: int) -> int {
    if a < b { a } else { b }
}

/// The names of a walk request: up to `count` length-prefixed strings read
/// from position `p`, each cut at the end of the message; reading stops
/// where no length field fits any more.
pub open spec fn walk_names(req: Seq<u8>, p: int, count: nat) -> Seq<Seq<char>>
    decreases count,
{
    if count == 0 || p < 0 || p + 2 > req.len() {
        seq![]
    } else {
        let e = min_int(p + 2 + get16(req, p), req.len() as int);
        seq![lossy_text(req.subrange(p + 2, e))] + walk_names(req, e, (count - 1) as nat)
    }
}

/// Where the first string field after `p` ends.
pub open spec fn string_end(req: Seq<u8>, p: int) -> int {
    min_int(p + 2 + get16(req, p), req.len() as int)
}

/// The type of a message of at least 7 bytes.
pub open spec fn msg_id(req: Seq<u8>) -> u8 {
    req[4]
}

/// The tag of a message of at least 7 bytes.
pub open spec fn msg_tag(req: Seq<u8>) -> u16 {
    get16(req, 5)
}

/// An attach request holds both of its length-prefixed strings' length
/// fields.
pub open spec fn attach_fits(req: Seq<u8>) -> bool {
    req.len() >= 17 && string_end(req, 15) + 2 <= req.len()
}

/// The path an attach binds: the configured root, or `.` without one.
pub open spec fn attach_path(root: Option<Seq<char>>) -> Seq<Seq<char>> {
    match root {
        Some(r) => seq![r],
        None => seq![seq!['.']],
    }
}

/// The path of `fid`, or no segments when the fid is unknown.
pub open spec fn fid_path(fids: Map<u32, FidView>, fid: u32) -> Seq<Seq<char>> {
    if fids.contains_key(fid) {
        fids[fid].path
    } else {
        seq![]
    }
}

/// A walk that the host must check: for each name in turn the path made of
/// `base` and the names so far must exist.
pub struct WalkRequest {
    pub tag: u16,
    pub newfid: u32,
    pub nwname: u16,
    pub base: Vec<String>,
    pub names: Vec<String>,
}

/// A read the host must serve: up to `count` bytes at `offset` of the file
/// at `path` (no file when the fid is unknown).
pub struct ReadRequest {
    pub tag: u16,
    pub path: Option<Vec<String>>,
    pub offset: u64,
    pub count: u32,
}

/// What a request asks of the host.
pub enum NinePAction {
    /// The reply, complete.
    Reply(Vec<u8>),
    /// A walk whose names must be checked on the host.
    Walk(WalkRequest),
    /// A read to serve from the host.
    Read(ReadRequest),
    /// The message is too short for the fields its type reads.
    Malformed,
}

/// The path of a read request as character sequences.
pub open spec fn read_path_view(p: Option<Vec<String>>) -> Option<Seq<Seq<char>>> {
    match p {
        Some(v) => Some(path_view(v@)),
        None => None,
    }
}

/// What `handle_9p` answers for a message of at least 7 bytes, besides the
/// change to the device, which `handled_device` gives.
pub open spec fn handled_action(dev: Virtio9pView, req: Seq<u8>, a: NinePAction) -> bool {
    let id = msg_id(req);
    let tag = msg_tag(req);
    if id == T_VERSION {
        if req.len() >= 13 {
            a matches NinePAction::Reply(r) && r@ == reply_bytes(id, tag, version_payload(get32(req, 7)))
        } else {
            a is Malformed
        }
    } else if id == T_ATTACH {
        if attach_fits(req) {
            a matches NinePAction::Reply(r) && r@ == reply_bytes(id, tag, zeros(13))
        } else {
            a is Malformed
        }
    } else if id == T_WALK {
        if req.len() >= 17 {
            a matches NinePAction::Walk(w) && w.tag == tag && w.newfid == get32(req, 11) && w.nwname
                == get16(req, 15) && path_view(w.base@) == fid_path(dev.fids, get32(req, 7))
                && path_view(w.names@) == walk_names(req, 17, get16(req, 15) as nat)
        } else {
            a is Malformed
        }
    } else if id == T_OPEN || id == T_LOPEN {
        if req.len() >= 11 {
            a matches NinePAction::Reply(r) && r@ == reply_bytes(id, tag, open_payload())
        } else {
            a is Malformed
        }
    } else if id == T_STATFS {
        a matches NinePAction::Reply(r) && r@ == reply_bytes(id, tag, statfs_payload())
    } else if id == T_READ {
        if req.len() >= 23 {
            a matches NinePAction::Read(rd) && rd.tag == tag && rd.offset == get64(req, 11)
                && rd.count == get32(req, 19) && read_path_view(rd.path) == (if dev.fids.contains_key(
                get32(req, 7),
            ) {
                Some(dev.fids[get32(req, 7)].path)
            } else {
                None
            })
        } else {
            a is Malformed
        }
    } else {
        a matches NinePAction::Reply(r) && r@ == error_reply(tag)
    }
}

/// The device after `handle_9p` answered a message of at least 7 bytes:
/// attach binds the fid to the root path, open marks the fid opened
/// (creating it with no path when unknown); nothing else changes.
pub open spec fn handled_device(dev: Virtio9pView, req: Seq<u8>) -> Virtio9pView {
    let id = msg_id(req);
    if id == T_ATTACH && attach_fits(req) {
        Virtio9pView {
            fids: dev.fids.insert(
                get32(req, 7),
                FidView { path: attach_path(dev.root), opened: false },
            ),
            ..dev
        }
    } else if (id == T_OPEN || id == T_LOPEN) && req.len() >= 11 {
        Virtio9pView {
            fids: dev.fids.insert(
                get32(req, 7),
                FidView { path: fid_path(dev.fids, get32(req, 7)), opened: true },
            ),
            ..dev
        }
    } else {
        dev
    }
}

/// Builds a reply message.
pub fn reply(id: u8, tag: u16, payload: &[u8]) -> (r: Vec<u8>)
    requires
        id < 255,
        payload@.len() + 7 <= usize::MAX,
    ensures
        r@ == reply_bytes(id, tag, payload@),
{
    let mut r: Vec<u8> = Vec::new();
    push_u32(&mut r, (payload.len() + 7) as u32);
    r.push(id + 1);
    push_u16(&mut r, tag);
    let mut i: usize = 0;
    while i < payload.len()
        invariant
            i <= payload@.len(),
            r@ == le32((payload@.len() + 7) as u32) + seq![(id + 1) as u8] + le16(tag)
                + payload@.subrange(0, i as int),
        decreases payload@.len() - i,
    {
        r.push(payload[i]);
        i = i + 1;
        assert(payload@.subrange(0, i as int) =~= payload@.subrange(0, i - 1) + seq![payload@[i - 1]]);
    }
    assert(payload@.subrange(0, i as int) =~= payload@);
    r
}

/// Appends `n` zero bytes.
fn push_zeros(v: &mut Vec<u8>, n: usize)
    ensures
        final(v)@ == old(v)@ + zeros(n as nat),
{
    let mut i: usize = 0;
    while i < n
        invariant
            i <= n,
            v@ == old(v)@ + zeros(i as nat),
        decreases n - i,
    {
        v.push(0);
        i = i + 1;
        assert(old(v)@ + zeros(i as nat) =~= old(v)@ + zeros((i - 1) as nat) + seq![0u8]);
    }
}

/// The error reply for `tag`.
fn error_message(tag: u16) -> (r: Vec<u8>)
    ensures
        r@ == error_reply(tag),
{
    let mut p: Vec<u8> = Vec::new();
    push_u32(&mut p, 2);
    assert(p@ =~= le32(2));
    reply(T_ERROR, tag, p.as_slice())
}

/// Reads the length-prefixed string at `*p` and moves `*p` past it; the
/// string is cut at the end of the message.
pub fn string_at(x: &[u8], p: &mut usize) -> (s: String)
    requires
        *old(p) + 2 <= x@.len(),
    ensures
        *final(p) == string_end(x@, *old(p) as int),
        s@ == lossy_text(x@.subrange(*old(p) + 2, string_end(x@, *old(p) as int))),
        vstd::utf8::valid_utf8(x@.subrange(*old(p) + 2, string_end(x@, *old(p) as int))) ==> s@
            == vstd::utf8::decode_utf8(x@.subrange(*old(p) + 2, string_end(x@, *old(p) as int))),
{
    let len = x.len();
    let n = read_u16(x, *p) as usize;
    let start = *p + 2;
    let e = if x.len() - start < n {
        x.len()
    } else {
        start + n
    };
    let s = decode_text(slice_subrange(x, start, e));
    *p = e;
    s
}

/// Reads the little-endian `u16` at `*p` and moves `*p` past it.
pub fn u16_at(x: &[u8], p: &mut usize) -> (v: u16)
    requires
        *old(p) + 2 <= x@.len(),
    ensures
        v == get16(x@, *old(p) as int),
        *final(p) == *old(p) + 2,
{
    let len = x.len();
    let v = read_u16(x, *p);
    *p = *p + 2;
    v
}

/// Reads the little-endian `u32` at `*p` and moves `*p` past it.
pub fn u32_at(x: &[u8], p: &mut usize) -> (v: u32)
    requires
        *old(p) + 4 <= x@.len(),
    ensures
        v == get32(x@, *old(p) as int),
        *final(p) == *old(p) + 4,
{
    let len = x.len();
    let v = read_u32(x, *p);
    *p = *p + 4;
    v
}

/// A copy of a path.
fn clone_path(p: &Vec<String>) -> (r: Vec<String>)
    ensures
        path_view(r@) == path_view(p@),
{
    let mut r: Vec<String> = Vec::new();
    let mut i: usize = 0;
    while i < p.len()
        invariant
            i <= p@.len(),
            path_view(r@) =~= path_view(p@.subrange(0, i as int)),
        decreases p@.len() - i,
    {
        let s = p[i].clone();
        r.push(s);
        i = i + 1;
        assert(path_view(p@.subrange(0, i as int)) =~= path_view(p@.subrange(0, i - 1)).push(
            p@[i - 1]@,
        ));
    }
    assert(p@.subrange(0, i as int) =~= p@);
    r
}

/// The path bound to `fid`, or no segments.
fn lookup_path(fids: &HashMap<u32, Fid>, fid: u32) -> (r: Vec<String>)
    ensures
        path_view(r@) == fid_path(fids_view(fids@), fid),
{
    match fids.get(&fid) {
        Some(f) => clone_path(&f.path),
        None => {
            let r: Vec<String> = Vec::new();
            assert(path_view(r@) =~= seq![]);
            r
        },
    }
}

/// Reads the names of a walk: up to `nwname` strings from position 17.
fn parse_walk_names(req: &[u8], nwname: u16) -> (names: Vec<String>)
    requires
        req@.len() >= 17,
    ensures
        path_view(names@) == walk_names(req@, 17, nwname as nat),
{
    let mut names: Vec<String> = Vec::new();
    let mut p: usize = 17;
    let mut k: u16 = 0;
    while k < nwname
        invariant
            k <= nwname,
            17 <= p <= req@.len(),
            walk_names(req@, 17, nwname as nat) == path_view(names@) + walk_names(
                req@,
                p as int,
                (nwname - k) as nat,
            ),
        decreases nwname - k,
    {
        if req.len() - p < 2 {
            assert(walk_names(req@, p as int, (nwname - k) as nat) == Seq::<Seq<char>>::empty());
            assert(path_view(names@) + Seq::<Seq<char>>::empty() =~= path_view(names@));
            return names;
        }
        let ghost old_names = path_view(names@);
        let ghost old_p = p as int;
        let s = string_at(req, &mut p);
        names.push(s);
        k = k + 1;
        assert(path_view(names@) =~= old_names.push(s@));
        assert(walk_names(req@, old_p, (nwname - (k - 1)) as nat) == seq![s@] + walk_names(
            req@,
            p as int,
            (nwname - k) as nat,
        ));
        assert(old_names + (seq![s@] + walk_names(req@, p as int, (nwname - k) as nat)) =~= path_view(
            names@,
        ) + walk_names(req@, p as int, (nwname - k) as nat));
    }
    assert(walk_names(req@, p as int, 0) == Seq::<Seq<char>>::empty());
    assert(path_view(names@) + Seq::<Seq<char>>::empty() =~= path_view(names@));
    names
}

/// Answers a 9P request. Messages shorter than 7 bytes get the error reply
/// with tag 0. Version, attach, open, statfs and unknown types are answered
/// here; walk and read return what the host must look up.
pub fn handle_9p(dev: &mut Virtio9p, req: &[u8]) -> (a: NinePAction)
    ensures
        req@.len() < 7 ==> (a matches NinePAction::Reply(r) && r@ == error_reply(0)) && final(dev)@
            == old(dev)@,
        req@.len() >= 7 ==> handled_action(old(dev)@, req@, a) && final(dev)@ == handled_device(
            old(dev)@,
            req@,
        ),
{
    if req.len() < 7 {
        return NinePAction::Reply(error_message(0));
    }
    let mut p: usize = 4;
    let id = req[p];
    p = p + 1;
    let tag = u16_at(req, &mut p);
    let n = req.len();
    if id == T_VERSION {
        if n < 13 {
            return NinePAction::Malformed;
        }
        let m = u32_at(req, &mut p);
        let _version = string_at(req, &mut p);
        let mut out: Vec<u8> = Vec::new();
        push_u32(&mut out, if m < MAX_MSIZE { m } else { MAX_MSIZE });
        push_u16(&mut out, 8);
        out.push(57);
        out.push(80);
        out.push(50);
        out.push(48);
        out.push(48);
        out.push(48);
        out.push(46);
        out.push(76);
        assert(out@ =~= version_payload(m));
        NinePAction::Reply(reply(id, tag, out.as_slice()))
    } else if id == T_ATTACH {
        if n < 17 {
            return NinePAction::Malformed;
        }
        let fid = u32_at(req, &mut p);
        let _afid = u32_at(req, &mut p);
        let _uname = string_at(req, &mut p);
        if n - p < 2 {
            return NinePAction::Malformed;
        }
        let _aname = string_at(req, &mut p);
        let seg: String = match &dev.root {
            Some(r) => r.clone(),
            None => {
                proof {
                    reveal_strlit(".");
                }
                let d = String::from_str(".");
                assert(d@ =~= seq!['.']);
                d
            },
        };
        assert(seq![seg@] =~= attach_path(root_view(dev.root)));
        let mut path: Vec<String> = Vec::new();
        path.push(seg);
        assert(path_view(path@) =~= seq![seg@]);
        let ghost before = fids_view(dev.fids@);
        dev.fids.insert(fid, Fid { path, opened: false });
        assert(fids_view(dev.fids@) =~= before.insert(
            fid,
            FidView { path: attach_path(root_view(dev.root)), opened: false },
        ));
        let mut out: Vec<u8> = Vec::new();
        push_zeros(&mut out, 13);
        assert(out@ =~= zeros(13));
        NinePAction::Reply(reply(id, tag, out.as_slice()))
    } else if id == T_WALK {
        if n < 17 {
            return NinePAction::Malformed;
        }
        let fid = u32_at(req, &mut p);
        let newfid = u32_at(req, &mut p);
        let nwname = u16_at(req, &mut p);
        let base = lookup_path(&dev.fids, fid);
        let names = parse_walk_names(req, nwname);
        NinePAction::Walk(WalkRequest { tag, newfid, nwname, base, names })
    } else if id == T_OPEN || id == T_LOPEN {
        if n < 11 {
            return NinePAction::Malformed;
        }
        let fid = u32_at(req, &mut p);
        let path = lookup_path(&dev.fids, fid);
        let ghost before = fids_view(dev.fids@);
        let ghost pv = path_view(path@);
        dev.fids.insert(fid, Fid { path, opened: true });
        assert(fids_view(dev.fids@) =~= before.insert(fid, FidView { path: pv, opened: true }));
        let mut out: Vec<u8> = Vec::new();
        push_zeros(&mut out, 13);
        push_u32(&mut out, MAX_MSIZE);
        assert(out@ =~= open_payload());
        NinePAction::Reply(reply(id, tag, out.as_slice()))
    } else if id == T_STATFS {
        let mut out: Vec<u8> = Vec::new();
        push_u32(&mut out, 0x01021997);
        push_u32(&mut out, 8192);
        push_u64(&mut out, 1_000_000);
        push_u64(&mut out, 900_000);
        push_u64(&mut out, 900_000);
        push_u64(&mut out, 1_000_000);
        push_u64(&mut out, 900_000);
        push_u64(&mut out, 0);
        push_u16(&mut out, 256);
        assert(out@ =~= statfs_payload());
        NinePAction::Reply(reply(id, tag, out.as_slice()))
    } else if id == T_READ {
        if n < 23 {
            return NinePAction::Malformed;
        }
        let fid = u32_at(req, &mut p);
        let off = read_u64(req, p);
        p = p + 8;
        let count = u32_at(req, &mut p);
        let path = match dev.fids.get(&fid) {
            Some(f) => Some(clone_path(&f.path)),
            None => None,
        };
        NinePAction::Read(ReadRequest { tag, path, offset: off, count })
    } else {
        NinePAction::Reply(error_message(tag))
    }
}

/// The device after a walk the host checked: when all names exist the new
/// fid is bound to the base path followed by the names.
pub open spec fn walked_device(dev: Virtio9pView, w: WalkRequest, existing: nat) -> Virtio9pView {
    if existing < w.names@.len() {
        dev
    } else {
        Virtio9pView {
            fids: dev.fids.insert(
                w.newfid,
                FidView { path: path_view(w.base@) + path_view(w.names@), opened: false },
            ),
            ..dev
        }
    }
}

/// The reply to a walk the host checked: the error reply when some name
/// does not exist, else `nwname` empty qids.
pub open spec fn walk_reply(w: WalkRequest, existing: nat) -> Seq<u8> {
    if existing < w.names@.len() {
        error_reply(w.tag)
    } else {
        reply_bytes(T_WALK, w.tag, le16(w.nwname) + zeros(13 * w.nwname as nat))
    }
}

/// Completes a walk. `existing` is how many of the names, taken in order,
/// led to existing paths before the first that does not (all of them when
/// every one exists). A walk whose names were cut short by the end of the
/// message is completed only when one of its names does not exist.
pub fn finish_walk(dev: &mut Virtio9p, w: WalkRequest, existing: usize) -> (r: Vec<u8>)
    requires
        existing <= w.names@.len(),
        existing < w.names@.len() || w.names@.len() == w.nwname,
    ensures
        r@ == walk_reply(w, existing as nat),
        final(dev)@ == walked_device(old(dev)@, w, existing as nat),
{
    let ghost w0 = w;
    if existing < w.names.len() {
        return error_message(w.tag);
    }
    let tag = w.tag;
    let nwname = w.nwname;
    let newfid = w.newfid;
    let mut path = w.base;
    let mut names = w.names;
    let ghost base_view = path_view(path@);
    let ghost names_view = path_view(names@);
    path.append(&mut names);
    assert(path_view(path@) =~= base_view + names_view);
    let ghost before = fids_view(dev.fids@);
    dev.fids.insert(newfid, Fid { path, opened: false });
    assert(fids_view(dev.fids@) =~= before.insert(
        newfid,
        FidView { path: base_view + names_view, opened: false },
    ));
    let mut out: Vec<u8> = Vec::new();
    push_u16(&mut out, nwname);
    push_zeros(&mut out, 13 * (nwname as usize));
    assert(out@ =~= le16(nwname) + zeros(13 * nwname as nat));
    reply(T_WALK, tag, out.as_slice())
}

/// The reply to a read: the count of bytes, then the bytes.
pub open spec fn read_reply(tag: u16, data: Seq<u8>) -> Seq<u8> {
    reply_bytes(T_READ, tag, le32(data.len() as u32) + data)
}

/// Completes a read with the bytes the host returned.
pub fn finish_read(tag: u16, data: &[u8]) -> (r: Vec<u8>)
    requires
        data@.len() + 11 <= usize::MAX,
    ensures
        r@ == read_reply(tag, data@),
{
    let mut out: Vec<u8> = Vec::new();
    push_u32(&mut out, data.len() as u32);
    let mut i: usize = 0;
    while i < data.len()
        invariant
            i <= data@.len(),
            out@ == le32(data@.len() as u32) + data@.subrange(0, i as int),
        decreases data@.len() - i,
    {
        out.push(data[i]);
        i = i + 1;
        assert(data@.subrange(0, i as int) =~= data@.subrange(0, i - 1) + seq![data@[i - 1]]);
    }
    assert(data@.subrange(0, i as int) =~= data@);
    reply(T_READ, tag, out.as_slice())
}

/// A reply's length field is its length, its type is the request's plus
/// one, and its tag is the request's.
pub proof fn law_reply_frame(id: u8, tag: u16, payload: Seq<u8>)
    requires
        id < 255,
        payload.len() + 7 <= u32::MAX,
    ensures
        reply_bytes(id, tag, payload).len() == payload.len() + 7,
        get32(reply_bytes(id, tag, payload), 0) == reply_bytes(id, tag, payload).len(),
        reply_bytes(id, tag, payload)[4] == id + 1,
        get16(reply_bytes(id, tag, payload), 5) == tag,
        reply_bytes(id, tag, payload).subrange(7, payload.len() + 7int) == payload,
{
    let n = (payload.len() + 7) as u32;
    let r = reply_bytes(id, tag, payload);
    assert(n % 256 + 256 * ((n / 256) % 256) + 65536 * ((n / 65536) % 256) + 16777216 * ((n / 16777216) % 256) == n);
    assert(tag % 256 + 256 * (tag / 256) == tag);
    assert(r.subrange(7, payload.len() + 7int) =~= payload);
}

/// Once a walk has found every name, a read of its new fid asks the host
/// for the walked path: the starting fid's path followed by the names.
pub proof fn law_walk_then_read(dev: Virtio9pView, w: WalkRequest, req: Seq<u8>, a: NinePAction)
    requires
        w.names@.len() == w.nwname,
        req.len() >= 23,
        msg_id(req) == T_READ,
        get32(req, 7) == w.newfid,
        handled_action(walked_device(dev, w, w.names@.len()), req, a),
    ensures
        a matches NinePAction::Read(rd) && read_path_view(rd.path) == Some(path_view(w.base@) + path_view(w.names@)),
{
}

/// An attach binds its fid to the shared root directory (to `.` when none
/// is shared), unopened; a walk from that fid then starts at the root.
pub proof fn law_attach_binds_root(dev: Virtio9pView, req: Seq<u8>)
    requires
        req.len() >= 7,
        msg_id(req) == T_ATTACH,
        attach_fits(req),
    ensures
        fid_path(handled_device(dev, req).fids, get32(req, 7)) == attach_path(dev.root),
        !handled_device(dev, req).fids[get32(req, 7)].opened,
{
}

/// A version request is answered with Rversion (type 101) under the
/// request's tag, agreeing to the smaller of the client's message size and
/// 8192, the most this server handles, and naming the protocol `9P2000.L`.
pub proof fn law_version_reply(dev: Virtio9pView, req: Seq<u8>, a: NinePAction)
    requires
        req.len() >= 13,
        req[4] == 100,
        handled_action(dev, req, a),
    ensures
        a matches NinePAction::Reply(r) && {
            let m = get32(req, 7);
            &&& r@.len() == 21
            &&& get32(r@, 0) == 21
            &&& r@[4] == 101
            &&& get16(r@, 5) == get16(req, 5)
            &&& get32(r@, 7) == (if m < 8192 { m } else { 8192u32 })
            &&& get32(r@, 7) <= 8192
            &&& get32(r@, 7) <= m
            &&& get16(r@, 11) == 8
            &&& r@.subrange(13, 21) == seq![57u8, 80, 50, 48, 48, 48, 46, 76]
        },
{
    let m = get32(req, 7);
    let x: u32 = if m < 8192 { m } else { 8192u32 };
    let payload = version_payload(m);
    law_reply_frame(100, get16(req, 5), payload);
    let r = reply_bytes(100, get16(req, 5), payload);
    assert(x % 256 + 256 * ((x / 256) % 256) + 65536 * ((x / 65536) % 256) + 16777216 * ((x / 16777216) % 256) == x);
    assert(payload.len() == 14);
    assert(r.subrange(7, 21)[0] == r[7]);
    assert(r[7] == payload[0] && r[8] == payload[1] && r[9] == payload[2] && r[10] == payload[3]);
    assert(r[11] == payload[4] && r[12] == payload[5]);
    assert(r.subrange(13, 21) =~= seq![57u8, 80, 50, 48, 48, 48, 46, 76]);
}

} // verus!
