//! The laws of the engine, stated over the same models that the writer's and
//! reader's contracts use, and proved once and for all.

use vstd::prelude::*;
use crate::archive::{opt_one, written_entry, written_model};
use crate::entries::{CompressionMethod, EntryKind, ExtractedV, FsEntryV, dir_mode_bits, file_mode_bits};
use crate::extract::{
    extract_entry, extract_model, extract_skipped, lemma_extract_model_snoc, plan_model,
    special_kind,
};
use crate::path_map::{is_safe_name, map_rel_spec};
use crate::zipio::zip_parse;

verus! {

/// What one walker entry comes back as after a full round trip: nothing for
/// the root itself or an escaping path; otherwise the same relative name, the
/// same payload bytes for a file, and the same permission bits, extended with
/// the entry kind's flag, as its recorded mode.
pub open spec fn round_trip_entry(root: Seq<u8>, e: FsEntryV) -> Option<ExtractedV> {
    match map_rel_spec(root, e.path) {
        Some(rel) => if rel.len() == 0 {
            None
        } else {
            match e.kind {
                EntryKind::File => Some(
                    ExtractedV {
                        name: rel,
                        kind: EntryKind::File,
                        data: e.data,
                        mode: Some(file_mode_bits(e.mode)),
                    },
                ),
                EntryKind::Directory => Some(
                    ExtractedV {
                        name: rel,
                        kind: EntryKind::Directory,
                        data: Seq::empty(),
                        mode: Some(dir_mode_bits(e.mode)),
                    },
                ),
            }
        },
        None => None,
    }
}

/// The whole tree after a full round trip, in walk order.
pub open spec fn round_trip_model(root: Seq<u8>, es: Seq<FsEntryV>) -> Seq<ExtractedV>
    decreases es.len(),
{
    if es.len() == 0 {
        Seq::empty()
    } else {
        round_trip_model(root, es.drop_last()) + opt_one(round_trip_entry(root, es.last()))
    }
}

proof fn lemma_round_trip_entry(root: Seq<u8>, e: FsEntryV, m: CompressionMethod)
    ensures
        (match written_entry(root, e, m) {
            Some(t) => extract_entry(t) == round_trip_entry(root, e),
            None => round_trip_entry(root, e) is None,
        }),
{
    match map_rel_spec(root, e.path) {
        Some(rel) => {
            if rel.len() > 0 {
                assert(is_safe_name(rel));
                match e.kind {
                    EntryKind::File => {
                        assert(rel[rel.len() - 1] != 47);
                        let p = e.mode;
                        assert(((p & 0o777) | 0o100000) & 0o170000 == 0o100000) by (bit_vector);
                        assert(!special_kind(Some(file_mode_bits(e.mode))));
                    },
                    EntryKind::Directory => {
                        let stored = rel + seq![47u8];
                        assert(stored[stored.len() - 1] == 47);
                        assert(stored.subrange(0, stored.len() - 1) =~= rel);
                    },
                }
            }
        },
        None => {},
    }
}

/// Round trip: extracting what the archive writer produced from any tree
/// yields exactly that tree again — every entry that maps to a non-empty
/// safe name under the root comes back with the same relative name, the same
/// payload bytes, and the same permission bits, in the same order; only the
/// root itself and entries whose path escapes the root are absent.
pub proof fn lemma_archive_extract_round_trip(root: Seq<u8>, es: Seq<FsEntryV>, m: CompressionMethod)
    ensures
        extract_model(written_model(root, es, m)) == round_trip_model(root, es),
    decreases es.len(),
{
    if es.len() == 0 {
        assert(extract_model(written_model(root, es, m)) =~= round_trip_model(root, es));
    } else {
        lemma_archive_extract_round_trip(root, es.drop_last(), m);
        lemma_round_trip_entry(root, es.last(), m);
        let prev = written_model(root, es.drop_last(), m);
        match written_entry(root, es.last(), m) {
            Some(t) => {
                assert(written_model(root, es, m) =~= prev.push(t));
                lemma_extract_model_snoc(prev, t);
                assert(extract_model(written_model(root, es, m)) =~= round_trip_model(root, es));
            },
            None => {
                assert(written_model(root, es, m) =~= prev);
                assert(extract_model(written_model(root, es, m)) =~= round_trip_model(root, es));
            },
        }
    }
}

/// No record of a well-built container is ever skipped on extraction: the
/// writer only emits safe names for regular files and directories, so
/// extraction keeps every one of them.
pub proof fn lemma_round_trip_skips_nothing(root: Seq<u8>, es: Seq<FsEntryV>, m: CompressionMethod)
    ensures
        extract_skipped(written_model(root, es, m)) == 0,
    decreases es.len(),
{
    if es.len() > 0 {
        lemma_round_trip_skips_nothing(root, es.drop_last(), m);
        lemma_round_trip_entry(root, es.last(), m);
        let prev = written_model(root, es.drop_last(), m);
        match written_entry(root, es.last(), m) {
            Some(t) => {
                assert(written_model(root, es, m) =~= prev.push(t));
                lemma_extract_model_snoc(prev, t);
            },
            None => {
                assert(written_model(root, es, m) =~= prev);
            },
        }
    }
}

/// Idempotence of extraction: what comes out of a container is a function of
/// the container's bytes and the destination root alone, so extracting the
/// same parseable container twice produces the same actions and the same
/// skip count both times, hence identical filesystem state in an empty
/// destination.
pub proof fn lemma_extraction_deterministic(
    bytes: Seq<u8>,
    dest: Seq<u8>,
    acts1: Seq<crate::entries::FsActionV>,
    skipped1: int,
    acts2: Seq<crate::entries::FsActionV>,
    skipped2: int,
)
    requires
        zip_parse(bytes) is Some,
        acts1 == plan_model(dest, extract_model(zip_parse(bytes)->Some_0)),
        skipped1 == extract_skipped(zip_parse(bytes)->Some_0),
        acts2 == plan_model(dest, extract_model(zip_parse(bytes)->Some_0)),
        skipped2 == extract_skipped(zip_parse(bytes)->Some_0),
    ensures
        acts1 == acts2,
        skipped1 == skipped2,
{
}

} // verus!
