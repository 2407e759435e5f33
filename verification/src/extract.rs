//! The archive reader: opens a container, walks its index, validates every
//! stored name, and turns the surviving entries into a plan of filesystem
//! actions under a destination root. Every action path provably stays inside
//! that root, whatever the container holds — containers may be adversarial.

use vstd::prelude::*;
use crate::entries::{
    ArchiveError, CompressionMethod, EntryKind, ExtractedEntry, ExtractedV, FsAction, FsActionV,
};
use crate::path_map::{check_name, is_safe_name, join_under};
use crate::zipio::{entry_readable, reader_entries, reader_entry, reader_len, reader_open, zip_parse};

verus! {

/// A recorded unix mode whose file-type flag names neither a regular file nor
/// nothing at all: a symlink, device, fifo or socket record. The container
/// cannot reproduce such an entry, so extraction skips it.
pub open spec fn special_kind(mode: Option<u32>) -> bool {
    match mode {
        Some(m) => (m & 0o170000) != 0 && (m & 0o170000) != 0o100000,
        None => false,
    }
}

/// What one raw container record becomes: a record whose stored name ends in
/// a separator is a directory and is kept under the stripped name if that is
/// archive-safe; any other record is a file and is kept under its stored name
/// if that is archive-safe and its recorded kind is a regular file;
/// everything else — unsafe names, symlinks and other special kinds — is
/// skipped.
pub open spec fn extract_entry(t: (Seq<u8>, Seq<u8>, Option<u32>, Option<CompressionMethod>)) -> Option<
    ExtractedV,
> {
    let name = t.0;
    if name.len() > 0 && name[name.len() - 1] == 47 {
        let stripped = name.subrange(0, name.len() - 1);
        if is_safe_name(stripped) {
            Some(
                ExtractedV {
                    name: stripped,
                    kind: EntryKind::Directory,
                    data: Seq::empty(),
                    mode: t.2,
                },
            )
        } else {
            None
        }
    } else {
        if is_safe_name(name) && !special_kind(t.2) {
            Some(ExtractedV { name, kind: EntryKind::File, data: t.1, mode: t.2 })
        } else {
            None
        }
    }
}

/// The validated entries a container's records yield, in index order.
pub open spec fn extract_model(
    rs: Seq<(Seq<u8>, Seq<u8>, Option<u32>, Option<CompressionMethod>)>,
) -> Seq<ExtractedV>
    decreases rs.len(),
{
    if rs.len() == 0 {
        Seq::empty()
    } else {
        extract_model(rs.drop_last()) + crate::archive::opt_one(extract_entry(rs.last()))
    }
}

/// How many container records are skipped for an unsafe name.
pub open spec fn extract_skipped(
    rs: Seq<(Seq<u8>, Seq<u8>, Option<u32>, Option<CompressionMethod>)>,
) -> int
    decreases rs.len(),
{
    if rs.len() == 0 {
        0
    } else {
        extract_skipped(rs.drop_last()) + if extract_entry(rs.last()) is None {
            1int
        } else {
            0int
        }
    }
}

/// The views of a vector of validated entries.
pub open spec fn extracted_views(es: Seq<ExtractedEntry>) -> Seq<ExtractedV> {
    es.map_values(|e: ExtractedEntry| e@)
}

pub(crate) proof fn lemma_extract_model_snoc(
    rs: Seq<(Seq<u8>, Seq<u8>, Option<u32>, Option<CompressionMethod>)>,
    t: (Seq<u8>, Seq<u8>, Option<u32>, Option<CompressionMethod>),
)
    ensures
        extract_model(rs.push(t)) == extract_model(rs) + crate::archive::opt_one(
            extract_entry(t),
        ),
        extract_skipped(rs.push(t)) == extract_skipped(rs) + if extract_entry(t) is None {
            1int
        } else {
            0int
        },
{
    assert(rs.push(t).drop_last() =~= rs);
    assert(rs.push(t).last() == t);
}

pub(crate) proof fn lemma_extract_model_safe(
    rs: Seq<(Seq<u8>, Seq<u8>, Option<u32>, Option<CompressionMethod>)>,
)
    ensures
        forall|i: int|
            0 <= i < extract_model(rs).len() ==> is_safe_name(#[trigger] extract_model(rs)[i].name),
        extract_model(rs).len() + extract_skipped(rs) == rs.len(),
    decreases rs.len(),
{
    if rs.len() > 0 {
        lemma_extract_model_safe(rs.drop_last());
    }
}

/// Reads a container back: parses its index and every payload, validates
/// every stored name, and returns the validated entries with the count of
/// records skipped for an unsafe name or an unsupported kind. It succeeds on
/// exactly the containers that fully parse, read back to exactly the model of
/// their records, and fails on every other input before anything is handed
/// out — as corrupt, or as unsupported where a record's compression method is
/// outside the codec's set. Every entry returned carries an archive-safe
/// name.
pub fn read_container(bytes: &Vec<u8>) -> (r: Result<(Vec<ExtractedEntry>, u64), ArchiveError>)
    ensures
        zip_parse(bytes@) matches Some(rs) ==> r matches Ok(p) && extracted_views(p.0@)
            == extract_model(rs) && p.1 == extract_skipped(rs),
        r is Ok ==> zip_parse(bytes@) is Some,
        r matches Ok(p) ==> forall|i: int|
            0 <= i < p.0@.len() ==> is_safe_name(#[trigger] p.0@[i].name@),
        r matches Err(err) ==> err == ArchiveError::Corrupt || err == ArchiveError::Unsupported,
{
    let mut rd = match reader_open(bytes) {
        Ok(rd) => rd,
        Err(_) => {
            return Err(ArchiveError::Corrupt);
        },
    };
    let n = reader_len(&rd);
    let ghost rs = reader_entries(rd);
    let mut out: Vec<ExtractedEntry> = Vec::new();
    let mut skipped: u64 = 0;
    let mut i: usize = 0;
    proof {
        assert(rs.subrange(0, 0) =~= Seq::<
            (Seq<u8>, Seq<u8>, Option<u32>, Option<CompressionMethod>),
        >::empty());
    }
    while i < n
        invariant
            n == rs.len(),
            i <= n,
            rs == reader_entries(rd),
            zip_parse(bytes@) is Some <==> (forall|q: int|
                0 <= q < rs.len() ==> #[trigger] entry_readable(rd, q)),
            zip_parse(bytes@) is Some ==> rs == zip_parse(bytes@)->Some_0,
            forall|q: int| 0 <= q < i ==> #[trigger] entry_readable(rd, q),
            extracted_views(out@) == extract_model(rs.subrange(0, i as int)),
            skipped == extract_skipped(rs.subrange(0, i as int)),
            forall|k: int| 0 <= k < out@.len() ==> is_safe_name(#[trigger] out@[k].name@),
        decreases n - i,
    {
        proof {
            lemma_extract_model_snoc(rs.subrange(0, i as int), rs[i as int]);
            lemma_extract_model_safe(rs.subrange(0, i as int));
            assert(rs.subrange(0, i + 1int) =~= rs.subrange(0, i as int).push(rs[i as int]));
        }
        let e = reader_entry(&mut rd, i);
        let re = match e {
            Ok(re) => re,
            Err(err) => {
                return Err(err);
            },
        };
        let nlen = re.name.len();
        if nlen > 0 && re.name[nlen - 1] == 47 {
            let mut stripped = re.name;
            stripped.truncate(nlen - 1);
            if check_name(&stripped) {
                out.push(
                    ExtractedEntry {
                        name: stripped,
                        kind: EntryKind::Directory,
                        data: Vec::new(),
                        mode: re.mode,
                        comment: re.comment,
                    },
                );
            } else {
                skipped = skipped + 1;
            }
        } else {
            let special = match re.mode {
                Some(m) => m & 0o170000 != 0 && m & 0o170000 != 0o100000,
                None => false,
            };
            if !special && check_name(&re.name) {
                out.push(
                    ExtractedEntry {
                        name: re.name,
                        kind: EntryKind::File,
                        data: re.data,
                        mode: re.mode,
                        comment: re.comment,
                    },
                );
            } else {
                skipped = skipped + 1;
            }
        }
        proof {
            assert(extracted_views(out@) =~= extract_model(rs.subrange(0, i + 1int)));
        }
        i = i + 1;
    }
    proof {
        assert(rs.subrange(0, rs.len() as int) =~= rs);
    }
    Ok((out, skipped))
}

/// `path` lies strictly inside the root `dest`: it is `dest`, then a single
/// separator, then an archive-safe relative name — so it names something
/// below `dest` and holds no parent-directory component after the root.
pub open spec fn stays_under(dest: Seq<u8>, path: Seq<u8>) -> bool {
    &&& path.len() > dest.len() + 1
    &&& path.subrange(0, dest.len() as int) == dest
    &&& path[dest.len() as int] == 47
    &&& is_safe_name(path.subrange(dest.len() as int + 1, path.len() as int))
}

/// The filesystem action one validated entry becomes under `dest`.
pub open spec fn action_of(dest: Seq<u8>, e: ExtractedV) -> FsActionV {
    FsActionV { path: dest + seq![47u8] + e.name, kind: e.kind, data: e.data, mode: e.mode }
}

/// The views of a vector of actions.
pub open spec fn action_views(a: Seq<FsAction>) -> Seq<FsActionV> {
    a.map_values(|x: FsAction| x@)
}

/// The full plan: one action per validated entry, in container order.
pub open spec fn plan_model(dest: Seq<u8>, es: Seq<ExtractedV>) -> Seq<FsActionV> {
    es.map_values(|e: ExtractedV| action_of(dest, e))
}

proof fn lemma_safe_join_stays_under(dest: Seq<u8>, name: Seq<u8>)
    requires
        is_safe_name(name),
    ensures
        stays_under(dest, dest + seq![47u8] + name),
{
    let path = dest + seq![47u8] + name;
    assert(path.subrange(0, dest.len() as int) =~= dest);
    assert(path.subrange(dest.len() as int + 1, path.len() as int) =~= name);
}

/// Turns validated entries into filesystem actions under a destination root:
/// each entry becomes one action at `dest`, a separator, then the entry's
/// name, in order. Every action's path stays strictly inside `dest`.
pub fn plan_extraction(dest: &Vec<u8>, entries: &Vec<ExtractedEntry>) -> (acts: Vec<FsAction>)
    requires
        forall|i: int| 0 <= i < entries@.len() ==> is_safe_name(#[trigger] entries@[i].name@),
    ensures
        action_views(acts@) == plan_model(dest@, extracted_views(entries@)),
        forall|i: int|
            0 <= i < acts@.len() ==> stays_under(dest@, #[trigger] acts@[i].path@),
{
    let mut acts: Vec<FsAction> = Vec::new();
    let mut i: usize = 0;
    while i < entries.len()
        invariant
            i <= entries@.len(),
            forall|k: int| 0 <= k < entries@.len() ==> is_safe_name(#[trigger] entries@[k].name@),
            acts@.len() == i,
            forall|k: int|
                0 <= k < i ==> #[trigger] acts@[k]@ == action_of(dest@, entries@[k]@),
            forall|k: int| 0 <= k < i ==> stays_under(dest@, #[trigger] acts@[k].path@),
        decreases entries@.len() - i,
    {
        let e = &entries[i];
        let path = join_under(dest, &e.name);
        let data = clone_bytes(&e.data);
        let comment = e.comment.clone();
        proof {
            lemma_safe_join_stays_under(dest@, e.name@);
        }
        acts.push(FsAction { path, kind: e.kind, data, mode: e.mode, comment });
        i = i + 1;
    }
    proof {
        assert(action_views(acts@) =~= plan_model(dest@, extracted_views(entries@)));
    }
    acts
}

/// Copies a byte vector.
fn clone_bytes(v: &Vec<u8>) -> (r: Vec<u8>)
    ensures
        r@ == v@,
{
    let mut r: Vec<u8> = Vec::new();
    let mut i: usize = 0;
    while i < v.len()
        invariant
            i <= v@.len(),
            r@ =~= v@.subrange(0, i as int),
        decreases v@.len() - i,
    {
        r.push(v[i]);
        i = i + 1;
    }
    assert(r@ =~= v@);
    r
}

/// Extracts a container: reads it back, validates every name, and returns
/// the actions to perform under `dest` with the count of skipped records. It
/// succeeds on exactly the containers that fully parse, with exactly the plan
/// of their validated records; any other input is rejected — as corrupt, or
/// as unsupported where a record's compression method is outside the codec's
/// set — before anything is handed out. Every action of any successful
/// extraction stays strictly inside `dest`: an entry named with
/// parent-directory traversal never produces an action outside it.
pub fn extract_container(bytes: &Vec<u8>, dest: &Vec<u8>) -> (r: Result<
    (Vec<FsAction>, u64),
    ArchiveError,
>)
    ensures
        zip_parse(bytes@) matches Some(rs) ==> r matches Ok(p) && action_views(p.0@)
            == plan_model(dest@, extract_model(rs)) && p.1 == extract_skipped(rs),
        r is Ok ==> zip_parse(bytes@) is Some,
        r matches Ok(p) ==> forall|i: int|
            0 <= i < p.0@.len() ==> stays_under(dest@, #[trigger] p.0@[i].path@),
        r matches Err(err) ==> err == ArchiveError::Corrupt || err == ArchiveError::Unsupported,
{
    match read_container(bytes) {
        Ok((entries, skipped)) => {
            let acts = plan_extraction(dest, &entries);
            proof {
                if zip_parse(bytes@) is Some {
                    assert(extracted_views(entries@) == extract_model(
                        zip_parse(bytes@)->Some_0,
                    ));
                }
            }
            Ok((acts, skipped))
        },
        Err(err) => Err(err),
    }
}

} // verus!
