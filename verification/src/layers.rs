//! Integer rules of replication layer configurations.
//!
//! A layer set is valid only if no two layers share a channel and every
//! channel is one of the four channels 0 to 3. (The frequency and radius of
//! each layer are checked beside these rules by the layer set's owner.)

use vstd::prelude::*;

verus! {

/// Highest replication channel number.
pub const MAX_CHANNEL: u8 = 3;

/// The first channel rule a layer set breaks.
#[derive(Debug, Clone, Copy, PartialEq, Eq, Structural)]
pub enum LayerChannelFault {
    /// A channel used by an earlier layer too
    Duplicate(u8),
    /// A channel above [`MAX_CHANNEL`]
    OutOfRange(u8),
}

/// The first channel of `channels` that was already among `seen` or among
/// the channels before it.
pub open spec fn spec_first_repeat(channels: Seq<u8>, seen: Set<u8>) -> Option<u8>
    decreases channels.len(),
{
    if channels.len() == 0 {
        None
    } else if seen.contains(channels[0]) {
        Some(channels[0])
    } else {
        spec_first_repeat(channels.drop_first(), seen.insert(channels[0]))
    }
}

/// The first channel of `channels` above [`MAX_CHANNEL`].
pub open spec fn spec_first_out_of_range(channels: Seq<u8>) -> Option<u8>
    decreases channels.len(),
{
    if channels.len() == 0 {
        None
    } else if channels[0] > MAX_CHANNEL {
        Some(channels[0])
    } else {
        spec_first_out_of_range(channels.drop_first())
    }
}

/// The fault a layer set with these channels (in layer order) is reported
/// for: a repeated channel first, then a channel out of range.
pub open spec fn spec_channel_fault(channels: Seq<u8>) -> Option<LayerChannelFault> {
    match spec_first_repeat(channels, Set::empty()) {
        Some(c) => Some(LayerChannelFault::Duplicate(c)),
        None => match spec_first_out_of_range(channels) {
            Some(c) => Some(LayerChannelFault::OutOfRange(c)),
            None => None,
        },
    }
}

/// Checks the channels of a layer set, given in layer order: the first
/// channel used twice is reported, and failing that the first channel
/// above [`MAX_CHANNEL`].
pub fn check_layer_channels(channels: &Vec<u8>) -> (r: Option<LayerChannelFault>)
    ensures
        r == spec_channel_fault(channels@),
{
    let mut seen: Vec<bool> = Vec::new();
    let mut j: usize = 0;
    while j < 256
        invariant
            j <= 256,
            seen@.len() == j,
            forall|c: int| 0 <= c < j ==> !seen@[c],
        decreases 256 - j,
    {
        seen.push(false);
        j = j + 1;
    }
    let mut i: usize = 0;
    proof {
        assert(channels@.skip(0) =~= channels@);
        assert(channels@.take(0).to_set() =~= Set::<u8>::empty());
    }
    while i < channels.len()
        invariant
            i <= channels@.len(),
            seen@.len() == 256,
            forall|c: u8| #[trigger] seen@[c as int] <==> channels@.take(i as int).contains(c),
            spec_first_repeat(channels@, Set::empty()) == spec_first_repeat(
                channels@.skip(i as int),
                channels@.take(i as int).to_set(),
            ),
        decreases channels@.len() - i,
    {
        let c = channels[i];
        proof {
            assert(channels@.skip(i as int)[0] == c);
            assert(channels@.skip(i as int).drop_first() =~= channels@.skip(i + 1));
            assert(channels@.take(i as int).contains(c) <==> channels@.take(i as int).to_set().contains(c));
        }
        if seen[c as usize] {
            return Some(LayerChannelFault::Duplicate(c));
        }
        seen.set(c as usize, true);
        proof {
            let prev = channels@.take(i as int);
            let next = channels@.take(i + 1);
            assert(next =~= prev.push(c));
            assert forall|x: u8| #[trigger] seen@[x as int] <==> next.contains(x) by {
                if x == c {
                    assert(next[i as int] == x);
                } else {
                    if next.contains(x) {
                        let t = choose|t: int| 0 <= t < next.len() && next[t] == x;
                        assert(prev[t] == x);
                    }
                    if prev.contains(x) {
                        let t = choose|t: int| 0 <= t < prev.len() && prev[t] == x;
                        assert(next[t] == x);
                    }
                }
            }
            assert forall|x: u8| next.to_set().contains(x) <==> prev.to_set().insert(c).contains(x) by {
                assert(next.to_set().contains(x) <==> next.contains(x));
                assert(prev.to_set().contains(x) <==> prev.contains(x));
                assert(next.contains(x) <==> seen@[x as int]);
                if x != c {
                    assert(prev.contains(x) ==> next.contains(x)) by {
                        if prev.contains(x) {
                            let t = choose|t: int| 0 <= t < prev.len() && prev[t] == x;
                            assert(next[t] == x);
                        }
                    }
                    assert(next.contains(x) ==> prev.contains(x)) by {
                        if next.contains(x) {
                            let t = choose|t: int| 0 <= t < next.len() && next[t] == x;
                            assert(prev[t] == x);
                        }
                    }
                }
            }
            assert(next.to_set() =~= prev.to_set().insert(c));
        }
        i = i + 1;
    }
    proof {
        assert(channels@.skip(channels@.len() as int) =~= Seq::<u8>::empty());
        assert(channels@.skip(0) =~= channels@);
    }
    let mut k: usize = 0;
    while k < channels.len()
        invariant
            k <= channels@.len(),
            spec_first_repeat(channels@, Set::empty()) is None,
            spec_first_out_of_range(channels@) == spec_first_out_of_range(channels@.skip(k as int)),
        decreases channels@.len() - k,
    {
        proof {
            assert(channels@.skip(k as int)[0] == channels@[k as int]);
            assert(channels@.skip(k as int).drop_first() =~= channels@.skip(k + 1));
        }
        if channels[k] > MAX_CHANNEL {
            return Some(LayerChannelFault::OutOfRange(channels[k]));
        }
        k = k + 1;
    }
    proof {
        assert(channels@.skip(channels@.len() as int) =~= Seq::<u8>::empty());
    }
    None
}

/// Rough size estimate of one replication of a layer: 32 bytes per
/// replicated property plus 64 bytes of overhead.
pub fn estimated_layer_size(property_count: usize) -> (n: usize)
    requires
        property_count * 32 + 64 <= usize::MAX,
    ensures
        n == property_count * 32 + 64,
{
    property_count * 32 + 64
}

/// The texts of a list of property names.
pub open spec fn spec_property_views(properties: Seq<String>) -> Seq<Seq<char>> {
    properties.map_values(|s: String| s@)
}

/// Whether a layer's list of replicated properties names `property`.
pub fn lists_property(properties: &Vec<String>, property: &str) -> (b: bool)
    ensures
        b == spec_property_views(properties@).contains(property@),
{
    let key = property.to_owned();
    let mut i: usize = 0;
    while i < properties.len()
        invariant
            i <= properties@.len(),
            key@ == property@,
            forall|j: int| 0 <= j < i ==> properties@[j]@ != property@,
        decreases properties@.len() - i,
    {
        if properties[i] == key {
            proof {
                assert(spec_property_views(properties@)[i as int] == property@);
            }
            return true;
        }
        i = i + 1;
    }
    proof {
        if spec_property_views(properties@).contains(property@) {
            let j = choose|j: int| 0 <= j < properties@.len() && spec_property_views(properties@)[j] == property@;
            assert(properties@[j]@ == property@);
        }
    }
    false
}

/// Whether two lists of replicated properties have a property in common.
pub fn shares_property(a: &Vec<String>, b: &Vec<String>) -> (r: bool)
    ensures
        r == exists|i: int| 0 <= i < a@.len() && #[trigger] spec_property_views(b@).contains(a@[i]@),
{
    let mut i: usize = 0;
    while i < a.len()
        invariant
            i <= a@.len(),
            forall|j: int| 0 <= j < i ==> !#[trigger] spec_property_views(b@).contains(a@[j]@),
        decreases a@.len() - i,
    {
        if lists_property(b, a[i].as_str()) {
            return true;
        }
        i = i + 1;
    }
    false
}

} // verus!
