//! The messages that validators send each other, and their form on the wire.
//!
//! A message is written as a list of 64-bit words: a tag for each choice, a count before each
//! list, a word for each number. The list of words travels in the fixed-width little-endian
//! encoding of bincode.

use vstd::prelude::*;
use crate::time::Timestamp;
use crate::vertex::{
    ConsensusValue, Dependency, Endorsement, Evidence, EvidenceView, Observation, Panorama, Ping,
    SignedWireUnit, UnitView, Vertex, VertexView,
};

verus! {

/// A message of the Highway protocol.
#[derive(Debug)]
pub enum HighwayMessage {
    NewVertex(Vertex),
    RequestDependency(Dependency),
    LatestStateRequest(Panorama),
}

/// A message by its contents.
pub enum MessageView {
    NewVertex(VertexView),
    RequestDependency(Dependency),
    LatestStateRequest(Seq<Observation>),
}

impl View for HighwayMessage {
    type V = MessageView;

    open spec fn view(&self) -> MessageView {
        match *self {
            HighwayMessage::NewVertex(vertex) => MessageView::NewVertex(vertex@),
            HighwayMessage::RequestDependency(dependency) => MessageView::RequestDependency(
                dependency,
            ),
            HighwayMessage::LatestStateRequest(panorama) => MessageView::LatestStateRequest(
                panorama@,
            ),
        }
    }
}

/// The words of an observation.
pub open spec fn observation_words(o: Observation) -> Seq<u64> {
    match o {
        Observation::Unseen => seq![0u64],
        Observation::Correct(hash) => seq![1u64, hash],
        Observation::Faulty => seq![2u64],
    }
}

/// The words of a list of observations, one after the other.
pub open spec fn observations_words(s: Seq<Observation>) -> Seq<u64>
    decreases s.len(),
{
    if s.len() == 0 {
        Seq::empty()
    } else {
        observations_words(s.drop_last()) + observation_words(s.last())
    }
}

/// The words of a panorama: its length, then its observations.
pub open spec fn panorama_words(p: Seq<Observation>) -> Seq<u64> {
    seq![p.len() as u64] + observations_words(p)
}

/// The words of a number that may be missing.
pub open spec fn option_words(o: Option<u64>) -> Seq<u64> {
    match o {
        None => seq![0u64],
        Some(x) => seq![1u64, x],
    }
}

/// The words of a truth value.
pub open spec fn bool_word(b: bool) -> u64 {
    if b {
        1
    } else {
        0
    }
}

/// The words of a consensus value that may be missing.
pub open spec fn value_words(o: Option<ConsensusValue>) -> Seq<u64> {
    match o {
        None => seq![0u64],
        Some(value) => seq![1u64, value.hash, bool_word(value.needs_validation)],
    }
}

/// The words of a unit.
pub open spec fn unit_words(u: UnitView) -> Seq<u64> {
    seq![
        u.hash,
        u.creator as u64,
        u.instance_id,
        u.seq_number,
        u.round_exp as u64,
        u.timestamp.0,
        u.signature,
    ] + value_words(u.value) + option_words(u.parent) + panorama_words(u.panorama)
}

/// The words of a vertex: a tag, then the contents.
pub open spec fn vertex_words(v: VertexView) -> Seq<u64> {
    match v {
        VertexView::Unit(unit) => seq![0u64] + unit_words(unit),
        VertexView::Evidence(evidence) => seq![1u64] + unit_words(evidence.unit1) + unit_words(
            evidence.unit2,
        ),
        VertexView::Endorsement(e) => seq![2u64, e.unit, e.creator as u64, e.signature],
        VertexView::Ping(p) => seq![
            3u64,
            p.creator as u64,
            p.timestamp.0,
            p.instance_id,
            p.signature,
        ],
    }
}

/// The words of a dependency: a tag, then what it names.
pub open spec fn dependency_words(d: Dependency) -> Seq<u64> {
    match d {
        Dependency::Unit(hash) => seq![0u64, hash],
        Dependency::Evidence(index) => seq![1u64, index as u64],
        Dependency::Endorsement(hash) => seq![2u64, hash],
        Dependency::Ping(creator, timestamp) => seq![3u64, creator as u64, timestamp.0],
    }
}

/// The words of a message: a tag, then the contents.
pub open spec fn message_words(m: MessageView) -> Seq<u64> {
    match m {
        MessageView::NewVertex(vertex) => seq![0u64] + vertex_words(vertex),
        MessageView::RequestDependency(dependency) => seq![1u64] + dependency_words(dependency),
        MessageView::LatestStateRequest(panorama) => seq![2u64] + panorama_words(panorama),
    }
}

/// Reads an observation at a place in a list of words; gives it with the place behind it.
pub open spec fn read_observation(w: Seq<u64>, at: int) -> Option<(Observation, int)> {
    if 0 <= at < w.len() {
        if w[at] == 0 {
            Some((Observation::Unseen, at + 1))
        } else if w[at] == 2 {
            Some((Observation::Faulty, at + 1))
        } else if w[at] == 1 && at + 1 < w.len() {
            Some((Observation::Correct(w[at + 1]), at + 2))
        } else {
            None
        }
    } else {
        None
    }
}

/// Reads `n` observations, one after the other.
pub open spec fn read_observations(w: Seq<u64>, at: int, n: nat) -> Option<(Seq<Observation>, int)>
    decreases n,
{
    if n == 0 {
        Some((Seq::empty(), at))
    } else {
        match read_observations(w, at, (n - 1) as nat) {
            Some((list, next)) => match read_observation(w, next) {
                Some((o, after)) => Some((list.push(o), after)),
                None => None,
            },
            None => None,
        }
    }
}

/// Reads a panorama: its length, then that many observations.
pub open spec fn read_panorama(w: Seq<u64>, at: int) -> Option<(Seq<Observation>, int)> {
    if 0 <= at < w.len() {
        read_observations(w, at + 1, w[at] as nat)
    } else {
        None
    }
}

/// Reads a number that may be missing.
pub open spec fn read_option(w: Seq<u64>, at: int) -> Option<(Option<u64>, int)> {
    if 0 <= at < w.len() {
        if w[at] == 0 {
            Some((None, at + 1))
        } else if w[at] == 1 && at + 1 < w.len() {
            Some((Some(w[at + 1]), at + 2))
        } else {
            None
        }
    } else {
        None
    }
}

/// Reads a consensus value that may be missing.
pub open spec fn read_value(w: Seq<u64>, at: int) -> Option<(Option<ConsensusValue>, int)> {
    if 0 <= at < w.len() {
        if w[at] == 0 {
            Some((None, at + 1))
        } else if w[at] == 1 && at + 2 < w.len() && w[at + 2] <= 1 {
            Some((Some(ConsensusValue { hash: w[at + 1], needs_validation: w[at + 2] == 1 }), at + 3))
        } else {
            None
        }
    } else {
        None
    }
}

/// Reads a unit.
pub open spec fn read_unit(w: Seq<u64>, at: int) -> Option<(UnitView, int)> {
    if 0 <= at && at + 7 <= w.len() && w[at + 1] <= u32::MAX && w[at + 4] <= u8::MAX {
        match read_value(w, at + 7) {
            Some((value, after_value)) => match read_option(w, after_value) {
                Some((parent, after_parent)) => match read_panorama(w, after_parent) {
                    Some((panorama, after)) => Some(
                        (
                            UnitView {
                                hash: w[at],
                                creator: w[at + 1] as u32,
                                instance_id: w[at + 2],
                                seq_number: w[at + 3],
                                round_exp: w[at + 4] as u8,
                                timestamp: Timestamp(w[at + 5]),
                                panorama,
                                value,
                                parent,
                                signature: w[at + 6],
                            },
                            after,
                        ),
                    ),
                    None => None,
                },
                None => None,
            },
            None => None,
        }
    } else {
        None
    }
}

/// Reads a vertex.
pub open spec fn read_vertex(w: Seq<u64>, at: int) -> Option<(VertexView, int)> {
    if 0 <= at < w.len() {
        if w[at] == 0 {
            match read_unit(w, at + 1) {
                Some((unit, after)) => Some((VertexView::Unit(unit), after)),
                None => None,
            }
        } else if w[at] == 1 {
            match read_unit(w, at + 1) {
                Some((unit1, next)) => match read_unit(w, next) {
                    Some((unit2, after)) => Some(
                        (VertexView::Evidence(EvidenceView { unit1, unit2 }), after),
                    ),
                    None => None,
                },
                None => None,
            }
        } else if w[at] == 2 && at + 4 <= w.len() && w[at + 2] <= u32::MAX {
            Some(
                (
                    VertexView::Endorsement(
                        Endorsement {
                            unit: w[at + 1],
                            creator: w[at + 2] as u32,
                            signature: w[at + 3],
                        },
                    ),
                    at + 4,
                ),
            )
        } else if w[at] == 3 && at + 5 <= w.len() && w[at + 1] <= u32::MAX {
            Some(
                (
                    VertexView::Ping(
                        Ping {
                            creator: w[at + 1] as u32,
                            timestamp: Timestamp(w[at + 2]),
                            instance_id: w[at + 3],
                            signature: w[at + 4],
                        },
                    ),
                    at + 5,
                ),
            )
        } else {
            None
        }
    } else {
        None
    }
}

/// Reads a dependency.
pub open spec fn read_dependency(w: Seq<u64>, at: int) -> Option<(Dependency, int)> {
    if 0 <= at && at + 2 <= w.len() {
        if w[at] == 0 {
            Some((Dependency::Unit(w[at + 1]), at + 2))
        } else if w[at] == 1 && w[at + 1] <= u32::MAX {
            Some((Dependency::Evidence(w[at + 1] as u32), at + 2))
        } else if w[at] == 2 {
            Some((Dependency::Endorsement(w[at + 1]), at + 2))
        } else if w[at] == 3 && at + 3 <= w.len() && w[at + 1] <= u32::MAX {
            Some((Dependency::Ping(w[at + 1] as u32, Timestamp(w[at + 2])), at + 3))
        } else {
            None
        }
    } else {
        None
    }
}

/// Reads a message that fills the whole list of words.
pub open spec fn read_message(w: Seq<u64>) -> Option<MessageView> {
    if w.len() == 0 {
        None
    } else if w[0] == 0 {
        match read_vertex(w, 1) {
            Some((vertex, after)) => if after == w.len() {
                Some(MessageView::NewVertex(vertex))
            } else {
                None
            },
            None => None,
        }
    } else if w[0] == 1 {
        match read_dependency(w, 1) {
            Some((dependency, after)) => if after == w.len() {
                Some(MessageView::RequestDependency(dependency))
            } else {
                None
            },
            None => None,
        }
    } else if w[0] == 2 {
        match read_panorama(w, 1) {
            Some((panorama, after)) => if after == w.len() {
                Some(MessageView::LatestStateRequest(panorama))
            } else {
                None
            },
            None => None,
        }
    } else {
        None
    }
}

} // verus!

verus! {

/// The bytes of a list of words, each word in eight bytes, least significant first.
pub open spec fn words_payload(w: Seq<u64>) -> Seq<u8>
    decreases w.len(),
{
    if w.len() == 0 {
        Seq::empty()
    } else {
        words_payload(w.drop_last()) + vstd::bytes::spec_u64_to_le_bytes(w.last())
    }
}

/// The bytes of a list of words on the wire: the number of words, then the words.
pub open spec fn words_bytes(w: Seq<u64>) -> Seq<u8> {
    vstd::bytes::spec_u64_to_le_bytes(w.len() as u64) + words_payload(w)
}

/// The word that stands at the `i`-th place behind the count.
pub open spec fn word_at(b: Seq<u8>, i: int) -> u64 {
    vstd::bytes::spec_u64_from_le_bytes(b.subrange(8 + 8 * i, 16 + 8 * i))
}

/// The list of words that bytes from the wire hold: the bytes begin with a count and hold at
/// least that many words behind it. What follows the words is passed over.
pub open spec fn bytes_words(b: Seq<u8>) -> Option<Seq<u64>> {
    if b.len() < 8 {
        None
    } else {
        let n = vstd::bytes::spec_u64_from_le_bytes(b.subrange(0, 8));
        if b.len() < 8 + 8 * n {
            None
        } else {
            Some(Seq::new(n as nat, |i: int| word_at(b, i)))
        }
    }
}

#[verifier::external_type_specification]
#[verifier::external_body]
pub struct ExBincodeErrorKind(bincode::ErrorKind);

/// `bincode::serialize` on a list of 64-bit words: the number of words and then each word, in
/// eight bytes each, least significant byte first. On such a list the outside function does
/// not fail.
#[verifier::external_body]
pub(crate) fn bincode_serialize(words: &Vec<u64>) -> (r: Vec<u8>)
    ensures
        r@ == words_bytes(words@),
{
    match bincode::serialize(words) {
        Ok(bytes) => bytes,
        Err(_) => Vec::new(),
    }
}

/// `bincode::deserialize` to a list of 64-bit words: it succeeds exactly on bytes that begin
/// with a count and hold that many words behind it, and gives those words.
#[verifier::external_body]
pub(crate) fn bincode_deserialize(bytes: &Vec<u8>) -> (r: Result<Vec<u64>, Box<bincode::ErrorKind>>)
    ensures
        r is Ok <==> bytes_words(bytes@) is Some,
        r matches Ok(words) ==> bytes_words(bytes@) == Some(words@),
{
    bincode::deserialize::<Vec<u64>>(bytes.as_slice())
}

fn write_observations(out: &mut Vec<u64>, panorama: &Panorama)
    ensures
        final(out)@ == old(out)@ + panorama_words(panorama@),
{
    let ghost before = out@;
    out.push(panorama.obs.len() as u64);
    let mut i: usize = 0;
    proof {
        assert(panorama@.take(0) =~= Seq::empty());
        assert(out@ =~= before + (seq![panorama@.len() as u64] + observations_words(
            panorama@.take(0),
        )));
    }
    while i < panorama.obs.len()
        invariant
            i <= panorama@.len(),
            out@ == before + (seq![panorama@.len() as u64] + observations_words(
                panorama@.take(i as int),
            )),
        decreases panorama@.len() - i,
    {
        let ghost current = out@;
        proof {
            assert(panorama@.take(i + 1).drop_last() =~= panorama@.take(i as int));
        }
        match panorama.obs[i] {
            Observation::Unseen => {
                out.push(0);
            },
            Observation::Correct(hash) => {
                out.push(1);
                out.push(hash);
            },
            Observation::Faulty => {
                out.push(2);
            },
        }
        proof {
            assert(out@ =~= current + observation_words(panorama@[i as int]));
            assert(out@ =~= before + (seq![panorama@.len() as u64] + observations_words(
                panorama@.take(i + 1),
            )));
        }
        i = i + 1;
    }
    proof {
        assert(panorama@.take(i as int) =~= panorama@);
    }
}

fn write_unit(out: &mut Vec<u64>, unit: &SignedWireUnit)
    ensures
        final(out)@ == old(out)@ + unit_words(unit@),
{
    let ghost before = out@;
    out.push(unit.hash);
    out.push(unit.creator as u64);
    out.push(unit.instance_id);
    out.push(unit.seq_number);
    out.push(unit.round_exp as u64);
    out.push(unit.timestamp.0);
    out.push(unit.signature);
    match unit.value {
        None => {
            out.push(0);
        },
        Some(value) => {
            out.push(1);
            out.push(value.hash);
            out.push(if value.needs_validation {
                1
            } else {
                0
            });
        },
    }
    match unit.parent {
        None => {
            out.push(0);
        },
        Some(hash) => {
            out.push(1);
            out.push(hash);
        },
    }
    let ghost head = out@;
    proof {
        assert(head =~= before + (seq![
            unit.hash,
            unit.creator as u64,
            unit.instance_id,
            unit.seq_number,
            unit.round_exp as u64,
            unit.timestamp.0,
            unit.signature,
        ] + value_words(unit.value) + option_words(unit.parent)));
    }
    write_observations(out, &unit.panorama);
    proof {
        assert(out@ =~= before + unit_words(unit@));
    }
}

fn write_vertex(out: &mut Vec<u64>, vertex: &Vertex)
    ensures
        final(out)@ == old(out)@ + vertex_words(vertex@),
{
    let ghost before = out@;
    match vertex {
        Vertex::Unit(unit) => {
            out.push(0);
            write_unit(out, unit);
            proof {
                assert(out@ =~= before + (seq![0u64] + unit_words(unit@)));
            }
        },
        Vertex::Evidence(evidence) => {
            out.push(1);
            write_unit(out, &evidence.unit1);
            write_unit(out, &evidence.unit2);
            proof {
                assert(out@ =~= before + (seq![1u64] + unit_words(evidence.unit1@) + unit_words(
                    evidence.unit2@,
                )));
            }
        },
        Vertex::Endorsement(e) => {
            out.push(2);
            out.push(e.unit);
            out.push(e.creator as u64);
            out.push(e.signature);
            proof {
                assert(out@ =~= before + seq![2u64, e.unit, e.creator as u64, e.signature]);
            }
        },
        Vertex::Ping(p) => {
            out.push(3);
            out.push(p.creator as u64);
            out.push(p.timestamp.0);
            out.push(p.instance_id);
            out.push(p.signature);
            proof {
                assert(out@ =~= before + seq![
                    3u64,
                    p.creator as u64,
                    p.timestamp.0,
                    p.instance_id,
                    p.signature,
                ]);
            }
        },
    }
}

fn write_dependency(out: &mut Vec<u64>, dependency: &Dependency)
    ensures
        final(out)@ == old(out)@ + dependency_words(*dependency),
{
    let ghost before = out@;
    match dependency {
        Dependency::Unit(hash) => {
            out.push(0);
            out.push(*hash);
            proof {
                assert(out@ =~= before + seq![0u64, *hash]);
            }
        },
        Dependency::Evidence(index) => {
            out.push(1);
            out.push(*index as u64);
            proof {
                assert(out@ =~= before + seq![1u64, *index as u64]);
            }
        },
        Dependency::Endorsement(hash) => {
            out.push(2);
            out.push(*hash);
            proof {
                assert(out@ =~= before + seq![2u64, *hash]);
            }
        },
        Dependency::Ping(creator, timestamp) => {
            out.push(3);
            out.push(*creator as u64);
            out.push(timestamp.0);
            proof {
                assert(out@ =~= before + seq![3u64, *creator as u64, timestamp.0]);
            }
        },
    }
}

/// Whether what was read is the expected value, with the place behind it.
pub open spec fn read_as<T: View>(got: Option<(T, usize)>, expected: Option<(T::V, int)>) -> bool {
    match (got, expected) {
        (Some((value, after)), Some((view, place))) => value@ == view && after == place,
        (None, None) => true,
        _ => false,
    }
}

/// Once reading a list of observations has failed, reading more of them fails too.
proof fn lemma_read_observations_fails(w: Seq<u64>, at: int, n: nat, m: nat)
    requires
        n <= m,
        read_observations(w, at, n) is None,
    ensures
        read_observations(w, at, m) is None,
    decreases m,
{
    if n < m {
        lemma_read_observations_fails(w, at, n, (m - 1) as nat);
    }
}

/// Reading observations moves forward by at least one word for each.
proof fn lemma_read_observations_moves(w: Seq<u64>, at: int, n: nat)
    requires
        0 <= at,
    ensures
        read_observations(w, at, n) matches Some((list, after)) ==> at + n <= after <= w.len()
            && list.len() == n || (n == 0 && after == at),
    decreases n,
{
    if n > 0 {
        lemma_read_observations_moves(w, at, (n - 1) as nat);
    }
}

fn parse_panorama(w: &Vec<u64>, at: usize) -> (r: Option<(Panorama, usize)>)
    ensures
        read_as(r, read_panorama(w@, at as int)),
{
    if at >= w.len() {
        return None;
    }
    let n = w[at];
    let mut obs: Vec<Observation> = Vec::new();
    let mut next: usize = at + 1;
    let mut i: u64 = 0;
    while i < n
        invariant
            i <= n,
            n == w@[at as int],
            at < w@.len(),
            at + 1 + i <= next <= w@.len() || (i == 0 && next == at + 1),
            read_observations(w@, at + 1, i as nat) == Some((obs@, next as int)),
        decreases n - i,
    {
        proof {
            lemma_read_observations_moves(w@, at + 1, i as nat);
        }
        if next >= w.len() {
            proof {
                assert(read_observations(w@, at + 1, (i + 1) as nat) is None);
                lemma_read_observations_fails(w@, at + 1, (i + 1) as nat, n as nat);
            }
            return None;
        }
        let tag = w[next];
        if tag == 0 {
            obs.push(Observation::Unseen);
            next = next + 1;
        } else if tag == 2 {
            obs.push(Observation::Faulty);
            next = next + 1;
        } else if tag == 1 && next + 1 < w.len() {
            obs.push(Observation::Correct(w[next + 1]));
            next = next + 2;
        } else {
            proof {
                assert(read_observations(w@, at + 1, (i + 1) as nat) is None);
                lemma_read_observations_fails(w@, at + 1, (i + 1) as nat, n as nat);
            }
            return None;
        }
        i = i + 1;
    }
    Some((Panorama { obs }, next))
}

fn parse_unit(w: &Vec<u64>, at: usize) -> (r: Option<(SignedWireUnit, usize)>)
    ensures
        read_as(r, read_unit(w@, at as int)),
        r matches Some((_, after)) ==> after <= w@.len(),
{
    if at > w.len() || w.len() - at < 7 {
        return None;
    }
    if w[at + 1] > u32::MAX as u64 || w[at + 4] > u8::MAX as u64 {
        return None;
    }
    let start = at + 7;
    // The value.
    if start >= w.len() {
        return None;
    }
    let (value, after_value): (Option<ConsensusValue>, usize) = if w[start] == 0 {
        (None, start + 1)
    } else if w[start] == 1 && w.len() - start > 2 && w[start + 2] <= 1 {
        (Some(ConsensusValue { hash: w[start + 1], needs_validation: w[start + 2] == 1 }), start + 3)
    } else {
        return None;
    };
    // The parent.
    if after_value >= w.len() {
        return None;
    }
    let (parent, after_parent): (Option<u64>, usize) = if w[after_value] == 0 {
        (None, after_value + 1)
    } else if w[after_value] == 1 && w.len() - after_value > 1 {
        (Some(w[after_value + 1]), after_value + 2)
    } else {
        return None;
    };
    match parse_panorama(w, after_parent) {
        Some((panorama, after)) => {
            proof {
                lemma_read_observations_moves(
                    w@,
                    after_parent + 1,
                    w@[after_parent as int] as nat,
                );
            }
            Some(
                (
                    SignedWireUnit {
                        hash: w[at],
                        creator: w[at + 1] as u32,
                        instance_id: w[at + 2],
                        seq_number: w[at + 3],
                        round_exp: w[at + 4] as u8,
                        timestamp: Timestamp(w[at + 5]),
                        panorama,
                        value,
                        parent,
                        signature: w[at + 6],
                    },
                    after,
                ),
            )
        },
        None => None,
    }
}

fn parse_vertex(w: &Vec<u64>, at: usize) -> (r: Option<(Vertex, usize)>)
    ensures
        read_as(r, read_vertex(w@, at as int)),
{
    if at >= w.len() {
        return None;
    }
    let tag = w[at];
    if tag == 0 {
        match parse_unit(w, at + 1) {
            Some((unit, after)) => Some((Vertex::Unit(unit), after)),
            None => None,
        }
    } else if tag == 1 {
        match parse_unit(w, at + 1) {
            Some((unit1, next)) => match parse_unit(w, next) {
                Some((unit2, after)) => Some((Vertex::Evidence(Evidence { unit1, unit2 }), after)),
                None => None,
            },
            None => None,
        }
    } else if tag == 2 && w.len() - at >= 4 && w[at + 2] <= u32::MAX as u64 {
        Some(
            (
                Vertex::Endorsement(
                    Endorsement { unit: w[at + 1], creator: w[at + 2] as u32, signature: w[at + 3] },
                ),
                at + 4,
            ),
        )
    } else if tag == 3 && w.len() - at >= 5 && w[at + 1] <= u32::MAX as u64 {
        Some(
            (
                Vertex::Ping(
                    Ping {
                        creator: w[at + 1] as u32,
                        timestamp: Timestamp(w[at + 2]),
                        instance_id: w[at + 3],
                        signature: w[at + 4],
                    },
                ),
                at + 5,
            ),
        )
    } else {
        None
    }
}

fn parse_dependency(w: &Vec<u64>, at: usize) -> (r: Option<(Dependency, usize)>)
    ensures
        r == match read_dependency(w@, at as int) {
            Some((dependency, after)) => Some((dependency, after as usize)),
            None => None,
        },
        r matches Some((_, after)) ==> after <= w@.len(),
{
    if at > w.len() || w.len() - at < 2 {
        return None;
    }
    let tag = w[at];
    if tag == 0 {
        Some((Dependency::Unit(w[at + 1]), at + 2))
    } else if tag == 1 && w[at + 1] <= u32::MAX as u64 {
        Some((Dependency::Evidence(w[at + 1] as u32), at + 2))
    } else if tag == 2 {
        Some((Dependency::Endorsement(w[at + 1]), at + 2))
    } else if tag == 3 && w.len() - at >= 3 && w[at + 1] <= u32::MAX as u64 {
        Some((Dependency::Ping(w[at + 1] as u32, Timestamp(w[at + 2])), at + 3))
    } else {
        None
    }
}

impl HighwayMessage {
    /// The message as a list of words.
    pub fn to_words(&self) -> (r: Vec<u64>)
        ensures
            r@ == message_words(self@),
    {
        let mut out: Vec<u64> = Vec::new();
        match self {
            HighwayMessage::NewVertex(vertex) => {
                out.push(0);
                write_vertex(&mut out, vertex);
                proof {
                    assert(out@ =~= seq![0u64] + vertex_words(vertex@));
                }
            },
            HighwayMessage::RequestDependency(dependency) => {
                out.push(1);
                write_dependency(&mut out, dependency);
                proof {
                    assert(out@ =~= seq![1u64] + dependency_words(*dependency));
                }
            },
            HighwayMessage::LatestStateRequest(panorama) => {
                out.push(2);
                write_observations(&mut out, panorama);
                proof {
                    assert(out@ =~= seq![2u64] + panorama_words(panorama@));
                }
            },
        }
        out
    }

    /// The message that a list of words holds, if it holds one and nothing else.
    pub fn from_words(w: &Vec<u64>) -> (r: Option<Self>)
        ensures
            r is Some <==> read_message(w@) is Some,
            r matches Some(message) ==> Some(message@) == read_message(w@),
    {
        if w.len() == 0 {
            return None;
        }
        let tag = w[0];
        if tag == 0 {
            match parse_vertex(w, 1) {
                Some((vertex, after)) => if after == w.len() {
                    Some(HighwayMessage::NewVertex(vertex))
                } else {
                    None
                },
                None => None,
            }
        } else if tag == 1 {
            match parse_dependency(w, 1) {
                Some((dependency, after)) => if after == w.len() {
                    Some(HighwayMessage::RequestDependency(dependency))
                } else {
                    None
                },
                None => None,
            }
        } else if tag == 2 {
            match parse_panorama(w, 1) {
                Some((panorama, after)) => if after == w.len() {
                    Some(HighwayMessage::LatestStateRequest(panorama))
                } else {
                    None
                },
                None => None,
            }
        } else {
            None
        }
    }

    /// The message as it travels.
    pub fn serialize(&self) -> (r: Vec<u8>)
        ensures
            r@ == message_bytes(self@),
    {
        let words = self.to_words();
        bincode_serialize(&words)
    }

    /// The message that bytes from the wire hold.
    pub fn deserialize(bytes: &Vec<u8>) -> (r: Option<Self>)
        ensures
            r is Some <==> bytes_message(bytes@) is Some,
            r matches Some(message) ==> Some(message@) == bytes_message(bytes@),
    {
        match bincode_deserialize(bytes) {
            Ok(words) => HighwayMessage::from_words(&words),
            Err(_) => None,
        }
    }
}

/// The bytes of a message on the wire.
pub open spec fn message_bytes(m: MessageView) -> Seq<u8> {
    words_bytes(message_words(m))
}

/// The message that bytes from the wire hold, if they hold one.
pub open spec fn bytes_message(b: Seq<u8>) -> Option<MessageView> {
    match bytes_words(b) {
        Some(words) => read_message(words),
        None => None,
    }
}

} // verus!
