//! Finding a device by the name of a power rail that it drives.

use vstd::prelude::*;

verus! {

/// Why a rail names no device.
#[derive(Copy, Clone, Debug, PartialEq, Eq, Structural)]
pub enum RailError {
    /// No device drives a rail of this name.
    NotFound,
    /// The name stands more than once among the rails of the devices.
    Multiple,
}

/// The rails of each device as mathematical values.  A device that is no
/// PMBus device has no rails.
pub open spec fn rails_view(devices: Seq<Vec<String>>) -> Seq<Seq<Seq<char>>> {
    Seq::new(devices.len(), |d: int| Seq::new(devices[d]@.len(), |r: int| devices[d]@[r]@))
}

/// The number of times that `rail` stands among the given rails.
pub open spec fn count_in(rails: Seq<Seq<char>>, rail: Seq<char>) -> nat
    decreases rails.len(),
{
    if rails.len() == 0 {
        0
    } else {
        count_in(rails.drop_last(), rail) + if rails.last() == rail {
            1nat
        } else {
            0nat
        }
    }
}

/// The number of times that `rail` stands among the rails of the devices.
pub open spec fn count_matches(devices: Seq<Seq<Seq<char>>>, rail: Seq<char>) -> nat
    decreases devices.len(),
{
    if devices.len() == 0 {
        0
    } else {
        count_matches(devices.drop_last(), rail) + count_in(devices.last(), rail)
    }
}

/// The device with index `device` drives the rail.
pub open spec fn drives(devices: Seq<Seq<Seq<char>>>, device: int, rail: Seq<char>) -> bool {
    0 <= device < devices.len() && count_in(devices[device], rail) > 0
}

/// A device that drives the rail makes the count positive; a count of one
/// leaves room for one such device only.
pub proof fn lemma_count_matches(devices: Seq<Seq<Seq<char>>>, rail: Seq<char>, device: int)
    requires
        drives(devices, device, rail),
    ensures
        count_matches(devices, rail) >= count_in(devices[device], rail),
        count_matches(devices, rail) == 1 ==> forall|other: int|
            drives(devices, other, rail) ==> other == device,
    decreases devices.len(),
{
    let before = devices.drop_last();
    if device < devices.len() - 1 {
        lemma_count_matches(before, rail, device);
        assert(before[device] == devices[device]);
    }
    if count_matches(devices, rail) == 1 {
        assert forall|other: int| drives(devices, other, rail) implies other == device by {
            if other != device {
                if other < devices.len() - 1 {
                    lemma_count_matches(before, rail, other);
                    assert(before[other] == devices[other]);
                }
                if device < devices.len() - 1 {
                    lemma_count_matches(before, rail, device);
                }
            }
        }
    }
}

/// Finds the device that drives the rail `rail`.  `devices[d]` are the
/// rails of device `d`.  The rail must stand exactly once among all of
/// them.
pub fn find_rail(devices: &Vec<Vec<String>>, rail: &str) -> (r: Result<usize, RailError>)
    ensures
        match r {
            Ok(device) => count_matches(rails_view(devices@), rail@) == 1 && drives(
                rails_view(devices@),
                device as int,
                rail@,
            ),
            Err(RailError::NotFound) => count_matches(rails_view(devices@), rail@) == 0,
            Err(RailError::Multiple) => count_matches(rails_view(devices@), rail@) >= 2,
        },
{
    let needle = String::from_str(rail);
    let ghost all = rails_view(devices@);
    let mut found: Option<usize> = None;
    let mut d: usize = 0;
    while d < devices.len()
        invariant
            d <= devices@.len(),
            needle@ == rail@,
            all == rails_view(devices@),
            match found {
                None => count_matches(all.take(d as int), rail@) == 0,
                Some(device) => count_matches(all.take(d as int), rail@) == 1 && device < d
                    && count_in(all[device as int], rail@) > 0,
            },
        decreases devices@.len() - d,
    {
        let rails = &devices[d];
        let ghost these = all[d as int];
        let ghost before = found;
        let mut r: usize = 0;
        while r < rails.len()
            invariant
                r <= rails@.len(),
                d < devices@.len(),
                rails == &devices@[d as int],
                needle@ == rail@,
                all == rails_view(devices@),
                these == all[d as int],
                these.len() == rails@.len(),
                match found {
                    None => count_matches(all.take(d as int), rail@) + count_in(
                        these.take(r as int),
                        rail@,
                    ) == 0,
                    Some(device) => count_matches(all.take(d as int), rail@) + count_in(
                        these.take(r as int),
                        rail@,
                    ) == 1 && device <= d && count_in(all[device as int], rail@) > 0 && (device
                        == d ==> count_in(these.take(r as int), rail@) > 0),
                },
            decreases rails@.len() - r,
        {
            proof {
                assert(these.take(r + 1).drop_last() =~= these.take(r as int));
                assert(these[r as int] == rails@[r as int]@);
            }
            if rails[r] == needle {
                match found {
                    Some(_) => {
                        proof {
                            lemma_count_in_prefix(these, rail@, r + 1);
                            lemma_count_prefix(all, rail@, d + 1);
                            assert(all.take(d + 1).drop_last() =~= all.take(d as int));
                        }
                        return Err(RailError::Multiple);
                    },
                    None => {
                        found = Some(d);
                    },
                }
            }
            proof {
                if found == Some(d) {
                    lemma_count_in_prefix(these, rail@, r + 1);
                }
            }
            r += 1;
        }
        proof {
            assert(these.take(r as int) =~= these);
            assert(all.take(d + 1).drop_last() =~= all.take(d as int));
        }
        d += 1;
    }
    proof {
        assert(all.take(d as int) =~= all);
    }
    match found {
        None => Err(RailError::NotFound),
        Some(device) => Ok(device),
    }
}

/// A prefix of the rails holds the rail no more often than all of them.
pub proof fn lemma_count_in_prefix(rails: Seq<Seq<char>>, rail: Seq<char>, n: int)
    requires
        0 <= n <= rails.len(),
    ensures
        count_in(rails.take(n), rail) <= count_in(rails, rail),
    decreases rails.len() - n,
{
    if n < rails.len() {
        lemma_count_in_prefix(rails, rail, n + 1);
        assert(rails.take(n + 1).drop_last() =~= rails.take(n));
    } else {
        assert(rails.take(n) =~= rails);
    }
}

/// A prefix of the devices holds the rail no more often than all of them.
pub proof fn lemma_count_prefix(devices: Seq<Seq<Seq<char>>>, rail: Seq<char>, n: int)
    requires
        0 <= n <= devices.len(),
    ensures
        count_matches(devices.take(n), rail) <= count_matches(devices, rail),
    decreases devices.len() - n,
{
    if n < devices.len() {
        lemma_count_prefix(devices, rail, n + 1);
        assert(devices.take(n + 1).drop_last() =~= devices.take(n));
    } else {
        assert(devices.take(n) =~= devices);
    }
}

} // verus!
