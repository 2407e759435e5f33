//! The archive writer: consumes the walker's entry records, maps each path to
//! an archive-safe relative name, streams file payloads through the codec
//! boundary, and finalizes the container. The container the writer produces
//! is pinned down entry for entry by `written_model`, and the writer succeeds
//! on every tree whose records stay within the container format's limits.

use vstd::prelude::*;
use crate::entries::{
    ArchiveError, CompressionMethod, EntryKind, FsEntry, FsEntryV, dir_mode_bits, file_mode_bits,
};
use crate::path_map::{check_name, is_safe_name, map_rel_spec, map_relative};
use crate::zipio::{
    MAX_NAME_LEN, MAX_PLAIN_PAYLOAD, builder_add_dir, builder_add_file, builder_entries,
    builder_finish, builder_new, within_format_limits, zip_parse,
};

verus! {

/// The views of a vector of filesystem entries.
pub open spec fn views_of(es: Seq<FsEntry>) -> Seq<FsEntryV> {
    es.map_values(|e: FsEntry| e@)
}

/// A sequence holding the value of an option, or nothing.
pub open spec fn opt_one<T>(o: Option<T>) -> Seq<T> {
    match o {
        Some(t) => seq![t],
        None => Seq::empty(),
    }
}

/// The container record one walker entry becomes: nothing for the root itself
/// and for a path that escapes the root; a directory record carries a
/// trailing separator, no payload and the stored method; a file record
/// carries its payload and the requested method.
pub open spec fn written_entry(root: Seq<u8>, e: FsEntryV, m: CompressionMethod) -> Option<
    (Seq<u8>, Seq<u8>, Option<u32>, Option<CompressionMethod>),
> {
    match map_rel_spec(root, e.path) {
        Some(rel) => if rel.len() == 0 {
            None
        } else {
            match e.kind {
                EntryKind::File => Some((rel, e.data, Some(file_mode_bits(e.mode)), Some(m))),
                EntryKind::Directory => Some(
                    (
                        rel + seq![47u8],
                        Seq::<u8>::empty(),
                        Some(dir_mode_bits(e.mode)),
                        Some(CompressionMethod::Stored),
                    ),
                ),
            }
        },
        None => None,
    }
}

/// The container records a walk produces, in walk order.
pub open spec fn written_model(root: Seq<u8>, es: Seq<FsEntryV>, m: CompressionMethod) -> Seq<
    (Seq<u8>, Seq<u8>, Option<u32>, Option<CompressionMethod>),
>
    decreases es.len(),
{
    if es.len() == 0 {
        Seq::empty()
    } else {
        written_model(root, es.drop_last(), m) + opt_one(written_entry(root, es.last(), m))
    }
}

/// How many walker entries are skipped because their path escapes the root.
pub open spec fn skipped_model(root: Seq<u8>, es: Seq<FsEntryV>) -> int
    decreases es.len(),
{
    if es.len() == 0 {
        0
    } else {
        skipped_model(root, es.drop_last()) + if map_rel_spec(root, es.last().path) is None {
            1int
        } else {
            0int
        }
    }
}

/// Addition capped at the largest reportable count.
pub open spec fn sat_add_u64(a: int, b: int) -> int {
    if a + b > u64::MAX {
        u64::MAX as int
    } else {
        a + b
    }
}

/// The total payload bytes streamed into the container, capped at the largest
/// reportable count.
pub open spec fn bytes_in_model(root: Seq<u8>, es: Seq<FsEntryV>, m: CompressionMethod) -> int
    decreases es.len(),
{
    if es.len() == 0 {
        0
    } else {
        match written_entry(root, es.last(), m) {
            Some(t) => sat_add_u64(bytes_in_model(root, es.drop_last(), m), t.1.len() as int),
            None => bytes_in_model(root, es.drop_last(), m),
        }
    }
}

/// No two container records share a stored name.
pub open spec fn names_distinct(
    rs: Seq<(Seq<u8>, Seq<u8>, Option<u32>, Option<CompressionMethod>)>,
) -> bool {
    forall|i: int, j: int|
        0 <= i < j < rs.len() ==> (#[trigger] rs[i].0) != (#[trigger] rs[j].0)
}

/// Aggregate statistics of one archive operation, for the driver's report.
pub struct ArchiveStats {
    /// Entries emitted into the container.
    pub entries_written: u64,
    /// Walker entries skipped because their path escapes the root.
    pub entries_skipped: u64,
    /// Uncompressed payload bytes consumed, saturating.
    pub bytes_in: u64,
    /// Size of the finished container in bytes.
    pub bytes_out: u64,
}

proof fn lemma_written_model_snoc(root: Seq<u8>, es: Seq<FsEntryV>, e: FsEntryV, m: CompressionMethod)
    ensures
        written_model(root, es.push(e), m) == written_model(root, es, m) + opt_one(
            written_entry(root, e, m),
        ),
        skipped_model(root, es.push(e)) == skipped_model(root, es) + if map_rel_spec(
            root,
            e.path,
        ) is None {
            1int
        } else {
            0int
        },
        bytes_in_model(root, es.push(e), m) == (match written_entry(root, e, m) {
            Some(t) => sat_add_u64(bytes_in_model(root, es, m), t.1.len() as int),
            None => bytes_in_model(root, es, m),
        }),
{
    assert(es.push(e).drop_last() =~= es);
    assert(es.push(e).last() == e);
}

proof fn lemma_written_model_len(root: Seq<u8>, es: Seq<FsEntryV>, m: CompressionMethod)
    ensures
        written_model(root, es, m).len() <= es.len(),
        0 <= skipped_model(root, es) <= es.len(),
        0 <= bytes_in_model(root, es, m) <= u64::MAX,
    decreases es.len(),
{
    if es.len() > 0 {
        lemma_written_model_len(root, es.drop_last(), m);
    }
}

proof fn lemma_written_model_concat(
    root: Seq<u8>,
    a: Seq<FsEntryV>,
    b: Seq<FsEntryV>,
    m: CompressionMethod,
)
    ensures
        written_model(root, a + b, m) == written_model(root, a, m) + written_model(root, b, m),
    decreases b.len(),
{
    if b.len() == 0 {
        assert(a + b =~= a);
        assert(written_model(root, a, m) + written_model(root, b, m) =~= written_model(
            root,
            a,
            m,
        ));
    } else {
        lemma_written_model_concat(root, a, b.drop_last(), m);
        assert((a + b).drop_last() =~= a + b.drop_last());
        assert((a + b).last() == b.last());
        assert(written_model(root, a, m) + written_model(root, b.drop_last(), m) + opt_one(
            written_entry(root, b.last(), m),
        ) =~= written_model(root, a, m) + written_model(root, b, m));
    }
}

/// When the whole tree's records stay within the format's limits, so does
/// every prefix of them that the builder holds mid-walk.
proof fn lemma_prefix_within_limits(root: Seq<u8>, vs: Seq<FsEntryV>, j: int, m: CompressionMethod)
    requires
        0 <= j <= vs.len(),
        within_format_limits(written_model(root, vs, m)),
    ensures
        within_format_limits(written_model(root, vs.subrange(0, j), m)),
{
    assert(vs =~= vs.subrange(0, j) + vs.subrange(j, vs.len() as int));
    lemma_written_model_concat(root, vs.subrange(0, j), vs.subrange(j, vs.len() as int), m);
    let pre = written_model(root, vs.subrange(0, j), m);
    let full = written_model(root, vs, m);
    assert(forall|k: int| 0 <= k < pre.len() ==> full[k] == pre[k]);
}

/// When the whole tree's records have distinct names within the format's
/// limits, the record a step is about to write is fresh and within bounds.
proof fn lemma_step_accepted(root: Seq<u8>, vs: Seq<FsEntryV>, j: int, m: CompressionMethod)
    requires
        0 <= j < vs.len(),
        written_entry(root, vs[j], m) is Some,
        names_distinct(written_model(root, vs, m)),
        within_format_limits(written_model(root, vs, m)),
    ensures
        forall|k: int|
            0 <= k < written_model(root, vs.subrange(0, j), m).len() ==> (#[trigger] written_model(
                root,
                vs.subrange(0, j),
                m,
            )[k].0) != written_entry(root, vs[j], m)->Some_0.0,
        written_entry(root, vs[j], m)->Some_0.0.len() <= MAX_NAME_LEN,
        written_entry(root, vs[j], m)->Some_0.1.len() < MAX_PLAIN_PAYLOAD,
{
    let pre = written_model(root, vs.subrange(0, j), m);
    let t = written_entry(root, vs[j], m)->Some_0;
    let full = written_model(root, vs, m);
    assert(vs.subrange(0, j + 1) =~= vs.subrange(0, j).push(vs[j]));
    lemma_written_model_snoc(root, vs.subrange(0, j), vs[j], m);
    assert(vs =~= vs.subrange(0, j + 1) + vs.subrange(j + 1, vs.len() as int));
    lemma_written_model_concat(
        root,
        vs.subrange(0, j + 1),
        vs.subrange(j + 1, vs.len() as int),
        m,
    );
    assert(full == pre + seq![t] + written_model(root, vs.subrange(j + 1, vs.len() as int), m));
    assert(full[pre.len() as int] == t);
    assert(forall|k: int| 0 <= k < pre.len() ==> full[k] == pre[k]);
    assert(t.0.len() <= MAX_NAME_LEN && t.1.len() < MAX_PLAIN_PAYLOAD);
}

/// Archives one directory tree: the walker's entries, each with its absolute
/// path, kind, payload and permission bits, become a container. Entries whose
/// path cannot be mapped to a safe name under `root` are skipped and counted;
/// the root itself is suppressed. On success the finished container parses
/// back to exactly the records of `written_model`, and the statistics report
/// the written, skipped, consumed and produced totals. The operation succeeds
/// on every tree whose records carry distinct stored names within the
/// format's limits; a failure of the underlying codec or stream surfaces as
/// an I/O error.
pub fn archive_tree(root: &Vec<u8>, entries: &Vec<FsEntry>, method: CompressionMethod) -> (r:
    Result<(Vec<u8>, ArchiveStats), ArchiveError>)
    ensures
        r matches Ok(p) ==> {
            &&& zip_parse(p.0@) == Some(written_model(root@, views_of(entries@), method))
            &&& p.1.entries_written == written_model(root@, views_of(entries@), method).len()
            &&& p.1.entries_skipped == skipped_model(root@, views_of(entries@))
            &&& p.1.bytes_in == bytes_in_model(root@, views_of(entries@), method)
            &&& p.1.bytes_out == p.0@.len()
        },
        names_distinct(written_model(root@, views_of(entries@), method)) && within_format_limits(
            written_model(root@, views_of(entries@), method),
        ) ==> r is Ok,
        r is Err ==> r == Err::<(Vec<u8>, ArchiveStats), ArchiveError>(ArchiveError::Io),
{
    let ghost vs = views_of(entries@);
    let ghost full = written_model(root@, vs, method);
    let mut builder = builder_new();
    proof {
        assert(builder_entries(builder) =~= Seq::<
            (Seq<u8>, Seq<u8>, Option<u32>, Option<CompressionMethod>),
        >::empty());
    }
    let mut written: u64 = 0;
    let mut skipped: u64 = 0;
    let mut bytes_in: u64 = 0;
    let mut j: usize = 0;
    proof {
        assert(vs.subrange(0, 0) =~= Seq::<FsEntryV>::empty());
    }
    while j < entries.len()
        invariant
            vs == views_of(entries@),
            full == written_model(root@, vs, method),
            j <= entries@.len(),
            vs.len() == entries@.len(),
            builder_entries(builder) == written_model(root@, vs.subrange(0, j as int), method),
            written == written_model(root@, vs.subrange(0, j as int), method).len(),
            skipped == skipped_model(root@, vs.subrange(0, j as int)),
            bytes_in == bytes_in_model(root@, vs.subrange(0, j as int), method),
        decreases entries@.len() - j,
    {
        let e = &entries[j];
        proof {
            assert(vs[j as int] == e@);
            assert(vs.subrange(0, j + 1int) =~= vs.subrange(0, j as int).push(vs[j as int]));
            lemma_written_model_snoc(root@, vs.subrange(0, j as int), vs[j as int], method);
            lemma_written_model_len(root@, vs.subrange(0, j as int), method);
        }
        match map_relative(root, &e.path) {
            Ok(rel) => {
                if rel.len() == 0 {
                    // the root itself: suppressed
                } else {
                    assert(is_safe_name(rel@));
                    proof {
                        if names_distinct(full) && within_format_limits(full) {
                            lemma_step_accepted(root@, vs, j as int, method);
                            lemma_prefix_within_limits(root@, vs, j as int, method);
                        }
                    }
                    match e.kind {
                        EntryKind::File => {
                            let add = e.data.len() as u64;
                            if let Err(_) = builder_add_file(
                                &mut builder,
                                &rel,
                                &e.data,
                                e.mode,
                                method,
                            ) {
                                proof {
                                    if names_distinct(full) && within_format_limits(full) {
                                        assert(false);
                                    }
                                }
                                return Err(ArchiveError::Io);
                            }
                            bytes_in = if bytes_in > u64::MAX - add {
                                u64::MAX
                            } else {
                                bytes_in + add
                            };
                        },
                        EntryKind::Directory => {
                            if let Err(_) = builder_add_dir(&mut builder, &rel, e.mode) {
                                proof {
                                    if names_distinct(full) && within_format_limits(full) {
                                        assert(false);
                                    }
                                }
                                return Err(ArchiveError::Io);
                            }
                        },
                    }
                    written = written + 1;
                }
            },
            Err(_) => {
                skipped = skipped + 1;
            },
        }
        j = j + 1;
    }
    proof {
        assert(vs.subrange(0, vs.len() as int) =~= vs);
    }
    let bytes = match builder_finish(builder) {
        Ok(bytes) => bytes,
        Err(_) => {
            proof {
                if names_distinct(full) && within_format_limits(full) {
                    assert(false);
                }
            }
            return Err(ArchiveError::Io);
        },
    };
    let bytes_out = bytes.len() as u64;
    Ok(
        (
            bytes,
            ArchiveStats {
                entries_written: written,
                entries_skipped: skipped,
                bytes_in,
                bytes_out,
            },
        ),
    )
}

/// Compresses one stream: the distinct single-file entry point. The payload
/// is packed as the only file record of a container under the given name, so
/// both operations produce the one indexed container format. A name that is
/// not archive-safe is rejected as unsupported; a safe name within the
/// format's limits always succeeds.
pub fn compress_stream(name: &Vec<u8>, data: &Vec<u8>, mode: u32, method: CompressionMethod) -> (r:
    Result<Vec<u8>, ArchiveError>)
    ensures
        r matches Ok(bytes) ==> is_safe_name(name@) && zip_parse(bytes@) == Some(
            seq![(name@, data@, Some(file_mode_bits(mode)), Some(method))],
        ),
        !is_safe_name(name@) ==> r == Err::<Vec<u8>, ArchiveError>(ArchiveError::Unsupported),
        is_safe_name(name@) && name@.len() <= MAX_NAME_LEN && data@.len() < MAX_PLAIN_PAYLOAD
            ==> r is Ok,
        r is Err ==> r == Err::<Vec<u8>, ArchiveError>(ArchiveError::Io) || r == Err::<
            Vec<u8>,
            ArchiveError,
        >(ArchiveError::Unsupported),
{
    if !check_name(name) {
        return Err(ArchiveError::Unsupported);
    }
    let mut builder = builder_new();
    proof {
        assert(builder_entries(builder) =~= Seq::<
            (Seq<u8>, Seq<u8>, Option<u32>, Option<CompressionMethod>),
        >::empty());
    }
    if let Err(_) = builder_add_file(&mut builder, name, data, mode, method) {
        return Err(ArchiveError::Io);
    }
    proof {
        assert(Seq::<(Seq<u8>, Seq<u8>, Option<u32>, Option<CompressionMethod>)>::empty().push(
            (name@, data@, Some(file_mode_bits(mode)), Some(method)),
        ) =~= seq![(name@, data@, Some(file_mode_bits(mode)), Some(method))]);
    }
    match builder_finish(builder) {
        Ok(bytes) => Ok(bytes),
        Err(_) => {
            proof {
                if name@.len() <= MAX_NAME_LEN && data@.len() < MAX_PLAIN_PAYLOAD {
                    let t = (name@, data@, Some(file_mode_bits(mode)), Some(method));
                    assert(seq![t][0] == t);
                    assert(within_format_limits(seq![t]));
                    assert(false);
                }
            }
            Err(ArchiveError::Io)
        },
    }
}

} // verus!
