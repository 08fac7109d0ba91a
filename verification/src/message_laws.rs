//! A message that was written to the wire is read back as it was.

use vstd::prelude::*;
use vstd::bytes::{lemma_auto_spec_u64_to_from_le_bytes, spec_u64_from_le_bytes, spec_u64_to_le_bytes};
use crate::message::{
    bytes_message, bytes_words, dependency_words, message_bytes, message_words, observation_words,
    observations_words, option_words, panorama_words, read_dependency, read_message,
    read_observation, read_observations, read_option, read_panorama, read_unit, read_value,
    read_vertex, unit_words, value_words, vertex_words, word_at, words_bytes, words_payload,
    MessageView,
};
use crate::vertex::{ConsensusValue, Dependency, Observation, UnitView, VertexView};

verus! {

/// Whether a list of words holds the given words at a place.
pub open spec fn holds_at(w: Seq<u64>, at: int, piece: Seq<u64>) -> bool {
    &&& 0 <= at
    &&& at + piece.len() <= w.len()
    &&& forall|i: int| 0 <= i < piece.len() ==> w[at + i] == #[trigger] piece[i]
}

/// A list that holds two pieces in a row holds each of them.
proof fn lemma_holds_parts(w: Seq<u64>, at: int, a: Seq<u64>, b: Seq<u64>)
    requires
        holds_at(w, at, a + b),
    ensures
        holds_at(w, at, a),
        holds_at(w, at + a.len(), b),
{
    assert forall|i: int| 0 <= i < a.len() implies w[at + i] == #[trigger] a[i] by {
        assert((a + b)[i] == a[i]);
    }
    assert forall|i: int| 0 <= i < b.len() implies w[at + a.len() + i] == #[trigger] b[i] by {
        assert((a + b)[a.len() + i] == b[i]);
    }
}

/// Whether a panorama can be written: its length fits in a word.
pub open spec fn writable_panorama(p: Seq<Observation>) -> bool {
    p.len() <= u64::MAX
}

/// Whether a vertex can be written.
pub open spec fn writable_vertex(v: VertexView) -> bool {
    match v {
        VertexView::Unit(unit) => writable_panorama(unit.panorama),
        VertexView::Evidence(evidence) => writable_panorama(evidence.unit1.panorama)
            && writable_panorama(evidence.unit2.panorama),
        _ => true,
    }
}

/// Whether a message can be written: no list in it is longer than a word can tell.
pub open spec fn writable(m: MessageView) -> bool {
    match m {
        MessageView::NewVertex(vertex) => writable_vertex(vertex),
        MessageView::RequestDependency(_) => true,
        MessageView::LatestStateRequest(panorama) => writable_panorama(panorama),
    }
}

proof fn lemma_read_observation(w: Seq<u64>, at: int, o: Observation)
    requires
        holds_at(w, at, observation_words(o)),
    ensures
        read_observation(w, at) == Some((o, at + observation_words(o).len())),
{
    let piece = observation_words(o);
    assert(w[at + 0] == piece[0]);
    match o {
        Observation::Correct(hash) => {
            assert(w[at + 1] == piece[1]);
        },
        _ => {},
    }
}

proof fn lemma_read_observations(w: Seq<u64>, at: int, s: Seq<Observation>)
    requires
        holds_at(w, at, observations_words(s)),
    ensures
        read_observations(w, at, s.len()) == Some((s, at + observations_words(s).len())),
    decreases s.len(),
{
    if s.len() > 0 {
        let t = s.drop_last();
        lemma_holds_parts(w, at, observations_words(t), observation_words(s.last()));
        lemma_read_observations(w, at, t);
        lemma_read_observation(w, at + observations_words(t).len(), s.last());
        assert(t.push(s.last()) =~= s);
    }
}

proof fn lemma_read_panorama(w: Seq<u64>, at: int, p: Seq<Observation>)
    requires
        writable_panorama(p),
        holds_at(w, at, panorama_words(p)),
    ensures
        read_panorama(w, at) == Some((p, at + panorama_words(p).len())),
{
    lemma_holds_parts(w, at, seq![p.len() as u64], observations_words(p));
    assert(w[at + 0] == seq![p.len() as u64][0]);
    lemma_read_observations(w, at + 1, p);
}

proof fn lemma_read_option(w: Seq<u64>, at: int, o: Option<u64>)
    requires
        holds_at(w, at, option_words(o)),
    ensures
        read_option(w, at) == Some((o, at + option_words(o).len())),
{
    let piece = option_words(o);
    assert(w[at + 0] == piece[0]);
    if o is Some {
        assert(w[at + 1] == piece[1]);
    }
}

proof fn lemma_read_value(w: Seq<u64>, at: int, o: Option<ConsensusValue>)
    requires
        holds_at(w, at, value_words(o)),
    ensures
        read_value(w, at) == Some((o, at + value_words(o).len())),
{
    let piece = value_words(o);
    assert(w[at + 0] == piece[0]);
    if o is Some {
        assert(w[at + 1] == piece[1]);
        assert(w[at + 2] == piece[2]);
    }
}

proof fn lemma_read_unit(w: Seq<u64>, at: int, u: UnitView)
    requires
        writable_panorama(u.panorama),
        holds_at(w, at, unit_words(u)),
    ensures
        read_unit(w, at) == Some((u, at + unit_words(u).len())),
{
    let head = seq![
        u.hash,
        u.creator as u64,
        u.instance_id,
        u.seq_number,
        u.round_exp as u64,
        u.timestamp.0,
        u.signature,
    ];
    let value = value_words(u.value);
    let parent = option_words(u.parent);
    let panorama = panorama_words(u.panorama);
    assert(unit_words(u) == ((head + value) + parent) + panorama);
    lemma_holds_parts(w, at, (head + value) + parent, panorama);
    lemma_holds_parts(w, at, head + value, parent);
    lemma_holds_parts(w, at, head, value);
    assert(w[at + 0] == head[0]);
    assert(w[at + 1] == head[1]);
    assert(w[at + 2] == head[2]);
    assert(w[at + 3] == head[3]);
    assert(w[at + 4] == head[4]);
    assert(w[at + 5] == head[5]);
    assert(w[at + 6] == head[6]);
    lemma_read_value(w, at + 7, u.value);
    lemma_read_option(w, at + 7 + value.len(), u.parent);
    lemma_read_panorama(w, at + 7 + value.len() + parent.len(), u.panorama);
    let read = read_unit(w, at).unwrap().0;
    assert(read.panorama == u.panorama);
    assert(read.creator == u.creator);
    assert(read.round_exp == u.round_exp);
}

proof fn lemma_read_vertex(w: Seq<u64>, at: int, v: VertexView)
    requires
        writable_vertex(v),
        holds_at(w, at, vertex_words(v)),
    ensures
        read_vertex(w, at) == Some((v, at + vertex_words(v).len())),
{
    let piece = vertex_words(v);
    assert(w[at + 0] == piece[0]);
    match v {
        VertexView::Unit(unit) => {
            lemma_holds_parts(w, at, seq![0u64], unit_words(unit));
            lemma_read_unit(w, at + 1, unit);
        },
        VertexView::Evidence(evidence) => {
            assert(piece == (seq![1u64] + unit_words(evidence.unit1)) + unit_words(evidence.unit2));
            lemma_holds_parts(
                w,
                at,
                seq![1u64] + unit_words(evidence.unit1),
                unit_words(evidence.unit2),
            );
            lemma_holds_parts(w, at, seq![1u64], unit_words(evidence.unit1));
            lemma_read_unit(w, at + 1, evidence.unit1);
            lemma_read_unit(w, at + 1 + unit_words(evidence.unit1).len(), evidence.unit2);
        },
        VertexView::Endorsement(e) => {
            assert(w[at + 1] == piece[1]);
            assert(w[at + 2] == piece[2]);
            assert(w[at + 3] == piece[3]);
        },
        VertexView::Ping(p) => {
            assert(w[at + 1] == piece[1]);
            assert(w[at + 2] == piece[2]);
            assert(w[at + 3] == piece[3]);
            assert(w[at + 4] == piece[4]);
        },
    }
}

proof fn lemma_read_dependency(w: Seq<u64>, at: int, d: Dependency)
    requires
        holds_at(w, at, dependency_words(d)),
    ensures
        read_dependency(w, at) == Some((d, at + dependency_words(d).len())),
{
    let piece = dependency_words(d);
    assert(w[at + 0] == piece[0]);
    assert(w[at + 1] == piece[1]);
    match d {
        Dependency::Ping(_, _) => {
            assert(w[at + 2] == piece[2]);
        },
        _ => {},
    }
}

/// The words of a message are read back as the message.
pub proof fn lemma_words_round_trip(m: MessageView)
    requires
        writable(m),
    ensures
        read_message(message_words(m)) == Some(m),
{
    let w = message_words(m);
    match m {
        MessageView::NewVertex(vertex) => {
            assert(holds_at(w, 1, vertex_words(vertex))) by {
                assert forall|i: int| 0 <= i < vertex_words(vertex).len() implies w[1 + i]
                    == #[trigger] vertex_words(vertex)[i] by {}
            }
            lemma_read_vertex(w, 1, vertex);
        },
        MessageView::RequestDependency(dependency) => {
            assert(holds_at(w, 1, dependency_words(dependency))) by {
                assert forall|i: int| 0 <= i < dependency_words(dependency).len() implies w[1 + i]
                    == #[trigger] dependency_words(dependency)[i] by {}
            }
            lemma_read_dependency(w, 1, dependency);
        },
        MessageView::LatestStateRequest(panorama) => {
            assert(holds_at(w, 1, panorama_words(panorama))) by {
                assert forall|i: int| 0 <= i < panorama_words(panorama).len() implies w[1 + i]
                    == #[trigger] panorama_words(panorama)[i] by {}
            }
            lemma_read_panorama(w, 1, panorama);
        },
    }
}

/// The bytes of a list of words hold eight bytes for each word, and each word where it
/// belongs.
proof fn lemma_payload(w: Seq<u64>, i: int)
    requires
        0 <= i < w.len(),
    ensures
        words_payload(w).len() == 8 * w.len(),
        words_payload(w).subrange(8 * i, 8 * i + 8) == spec_u64_to_le_bytes(w[i]),
    decreases w.len(),
{
    lemma_auto_spec_u64_to_from_le_bytes();
    let t = w.drop_last();
    lemma_payload_len(t);
    if i < w.len() - 1 {
        lemma_payload(t, i);
        assert(words_payload(w).subrange(8 * i, 8 * i + 8) =~= words_payload(t).subrange(
            8 * i,
            8 * i + 8,
        ));
    } else {
        assert(words_payload(w).subrange(8 * i, 8 * i + 8) =~= spec_u64_to_le_bytes(w.last()));
    }
}

/// The bytes of a list of words are eight for each word.
proof fn lemma_payload_len(w: Seq<u64>)
    ensures
        words_payload(w).len() == 8 * w.len(),
    decreases w.len(),
{
    lemma_auto_spec_u64_to_from_le_bytes();
    if w.len() > 0 {
        lemma_payload_len(w.drop_last());
    }
}

/// The bytes of a list of words are read back as the list.
pub proof fn lemma_bytes_round_trip(w: Seq<u64>)
    requires
        w.len() <= u64::MAX,
    ensures
        bytes_words(words_bytes(w)) == Some(w),
{
    lemma_auto_spec_u64_to_from_le_bytes();
    lemma_payload_len(w);
    let b = words_bytes(w);
    let count = spec_u64_to_le_bytes(w.len() as u64);
    assert(b.subrange(0, 8) =~= count);
    let read = bytes_words(b).unwrap();
    assert(read.len() == w.len());
    assert forall|i: int| 0 <= i < w.len() implies read[i] == w[i] by {
        lemma_payload(w, i);
        assert(b.subrange(8 + 8 * i, 16 + 8 * i) =~= words_payload(w).subrange(8 * i, 8 * i + 8));
        assert(word_at(b, i) == w[i]);
    }
    assert(read =~= w);
}

/// The length of the words of a message, as far as it matters: it fits in 64 bits whenever
/// the message is held in memory.
pub open spec fn fits_the_wire(m: MessageView) -> bool {
    writable(m) && message_words(m).len() <= u64::MAX
}

/// A message that was written to the wire is read back as it was.
pub proof fn lemma_message_round_trip(m: MessageView)
    requires
        fits_the_wire(m),
    ensures
        bytes_message(message_bytes(m)) == Some(m),
{
    lemma_bytes_round_trip(message_words(m));
    lemma_words_round_trip(m);
}

} // verus!
