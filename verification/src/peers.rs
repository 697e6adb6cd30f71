//! A read-only snapshot of the peer set, bucketed by Kademlia distance.
//!
//! The routing table itself is owned by the discovery collaborator; the
//! dispatcher only reads matching peers for a `FindNodes` request. A snapshot
//! holds each known peer's record beside the distance bucket it sits in.

use vstd::prelude::*;

verus! {

use crate::messages::{spec_enrs_view, Enr};

/// The most peer records a `Nodes` response can report: its `total` field is
/// one byte.
pub const MAX_NODES_RESPONSE: usize = 255;

/// A snapshot of the peer set: each entry is a distance bucket index beside
/// the peer's identity record.
pub struct PeerSet {
    pub entries: Vec<(u16, Enr)>,
}

impl View for PeerSet {
    type V = Seq<(u16, Seq<u8>)>;

    open spec fn view(&self) -> Seq<(u16, Seq<u8>)> {
        Seq::new(self.entries@.len(), |i: int| (self.entries@[i].0, self.entries@[i].1@))
    }
}

/// The records of the entries sitting at distance `d`, in set order.
pub open spec fn spec_records_at(entries: Seq<(u16, Seq<u8>)>, d: u16) -> Seq<Seq<u8>>
    decreases entries.len(),
{
    if entries.len() == 0 {
        Seq::empty()
    } else {
        (if entries[0].0 == d {
            seq![entries[0].1]
        } else {
            Seq::empty()
        }) + spec_records_at(entries.skip(1), d)
    }
}

/// The records matching each requested distance, in request order, flattened
/// to one sequence.
pub open spec fn spec_find_nodes(entries: Seq<(u16, Seq<u8>)>, ds: Seq<u16>) -> Seq<Seq<u8>>
    decreases ds.len(),
{
    if ds.len() == 0 {
        Seq::empty()
    } else {
        spec_records_at(entries, ds[0]) + spec_find_nodes(entries, ds.skip(1))
    }
}

/// A sequence capped at the most records one `Nodes` response can carry.
pub open spec fn spec_truncated(rs: Seq<Seq<u8>>) -> Seq<Seq<u8>> {
    if rs.len() <= MAX_NODES_RESPONSE {
        rs
    } else {
        rs.take(MAX_NODES_RESPONSE as int)
    }
}

/// Appending one entry extends the matches at `d` by that entry's record,
/// when its bucket matches.
proof fn lemma_records_at_snoc(entries: Seq<(u16, Seq<u8>)>, e: (u16, Seq<u8>), d: u16)
    ensures
        spec_records_at(entries.push(e), d) == spec_records_at(entries, d) + (if e.0 == d {
            seq![e.1]
        } else {
            Seq::<Seq<u8>>::empty()
        }),
    decreases entries.len(),
{
    reveal_with_fuel(spec_records_at, 3);
    let tail = if e.0 == d {
        seq![e.1]
    } else {
        Seq::<Seq<u8>>::empty()
    };
    if entries.len() == 0 {
        assert(entries.push(e).skip(1) =~= Seq::<(u16, Seq<u8>)>::empty());
        assert(entries.push(e)[0] == e);
        assert(spec_records_at(entries.push(e), d) =~= spec_records_at(entries, d) + tail);
    } else {
        lemma_records_at_snoc(entries.skip(1), e, d);
        assert(entries.push(e).skip(1) =~= entries.skip(1).push(e));
        assert(entries.push(e)[0] == entries[0]);
        let head = if entries[0].0 == d {
            seq![entries[0].1]
        } else {
            Seq::<Seq<u8>>::empty()
        };
        assert(spec_records_at(entries.push(e), d) == head + spec_records_at(
            entries.skip(1).push(e),
            d,
        ));
        assert(head + (spec_records_at(entries.skip(1), d) + tail) =~= (head + spec_records_at(
            entries.skip(1),
            d,
        )) + tail);
    }
}

/// Appending one distance extends the flattened matches by that distance's
/// matches.
proof fn lemma_find_nodes_snoc(entries: Seq<(u16, Seq<u8>)>, ds: Seq<u16>, d: u16)
    ensures
        spec_find_nodes(entries, ds.push(d)) == spec_find_nodes(entries, ds) + spec_records_at(
            entries,
            d,
        ),
    decreases ds.len(),
{
    reveal_with_fuel(spec_find_nodes, 3);
    if ds.len() == 0 {
        assert(ds.push(d).skip(1) =~= Seq::<u16>::empty());
        assert(ds.push(d)[0] == d);
        assert(spec_find_nodes(entries, ds.push(d)) =~= spec_find_nodes(entries, ds)
            + spec_records_at(entries, d));
    } else {
        lemma_find_nodes_snoc(entries, ds.skip(1), d);
        assert(ds.push(d).skip(1) =~= ds.skip(1).push(d));
        assert(ds.push(d)[0] == ds[0]);
        assert(spec_find_nodes(entries, ds.push(d)) == spec_records_at(entries, ds[0])
            + spec_find_nodes(entries, ds.skip(1).push(d)));
        assert(spec_records_at(entries, ds[0]) + (spec_find_nodes(entries, ds.skip(1))
            + spec_records_at(entries, d)) =~= (spec_records_at(entries, ds[0])
            + spec_find_nodes(entries, ds.skip(1))) + spec_records_at(entries, d));
    }
}

impl PeerSet {
    /// An empty snapshot.
    pub fn new() -> (r: PeerSet)
        ensures
            r@ == Seq::<(u16, Seq<u8>)>::empty(),
    {
        let r = PeerSet { entries: Vec::new() };
        proof {
            assert(r@ =~= Seq::<(u16, Seq<u8>)>::empty());
        }
        r
    }

    /// Record one peer as sitting in the bucket at `distance`.
    pub fn add_peer(&mut self, distance: u16, record: Enr)
        ensures
            final(self)@ == old(self)@.push((distance, record@)),
    {
        self.entries.push((distance, record));
        proof {
            assert(self@ =~= old(self)@.push((distance, record@)));
        }
    }

    /// How many peers the snapshot holds.
    pub fn len(&self) -> (r: usize)
        ensures
            r == self@.len(),
    {
        self.entries.len()
    }

    /// The records of every entry at distance `d`, in set order.
    pub fn nodes_at_distance(&self, d: u16) -> (r: Vec<Enr>)
        ensures
            spec_enrs_view(r@) == spec_records_at(self@, d),
    {
        let mut out: Vec<Enr> = Vec::new();
        let mut i: usize = 0;
        while i < self.entries.len()
            invariant
                i <= self.entries@.len(),
                spec_enrs_view(out@) == spec_records_at(self@.take(i as int), d),
            decreases self.entries@.len() - i,
        {
            let ghost prev = out@;
            if self.entries[i].0 == d {
                out.push(self.entries[i].1.clone());
            }
            proof {
                lemma_records_at_snoc(self@.take(i as int), self@[i as int], d);
                assert(self@.take(i + 1) =~= self@.take(i as int).push(self@[i as int]));
                if self@[i as int].0 == d {
                    assert(spec_enrs_view(out@) =~= spec_enrs_view(prev).push(
                        self@[i as int].1,
                    ));
                } else {
                    assert(spec_enrs_view(out@) =~= spec_enrs_view(prev)
                        + Seq::<Seq<u8>>::empty());
                }
            }
            i = i + 1;
        }
        proof {
            assert(self@.take(self@.len() as int) =~= self@);
        }
        out
    }

    /// The matching records for every requested distance, flattened in
    /// request order and truncated to what one `Nodes` response can carry.
    pub fn find_nodes_response(&self, distances: &Vec<u16>) -> (r: Vec<Enr>)
        ensures
            spec_enrs_view(r@) == spec_truncated(spec_find_nodes(self@, distances@)),
            r@.len() <= MAX_NODES_RESPONSE,
    {
        let ghost ds = distances@;
        let mut all: Vec<Enr> = Vec::new();
        let mut j: usize = 0;
        while j < distances.len()
            invariant
                j <= ds.len(),
                ds == distances@,
                spec_enrs_view(all@) == spec_find_nodes(self@, ds.take(j as int)),
            decreases ds.len() - j,
        {
            let ghost prev = all@;
            let mut found = self.nodes_at_distance(distances[j]);
            let ghost found_view = found@;
            all.append(&mut found);
            proof {
                lemma_find_nodes_snoc(self@, ds.take(j as int), ds[j as int]);
                assert(ds.take(j + 1) =~= ds.take(j as int).push(ds[j as int]));
                assert(spec_enrs_view(all@) =~= spec_enrs_view(prev) + spec_enrs_view(
                    found_view,
                ));
            }
            j = j + 1;
        }
        proof {
            assert(ds.take(ds.len() as int) =~= ds);
        }
        let ghost full = spec_enrs_view(all@);
        all.truncate(MAX_NODES_RESPONSE);
        proof {
            if full.len() > MAX_NODES_RESPONSE {
                assert(spec_enrs_view(all@) =~= full.take(MAX_NODES_RESPONSE as int));
            } else {
                assert(spec_enrs_view(all@) =~= full);
            }
        }
        all
    }
}

} // verus!
