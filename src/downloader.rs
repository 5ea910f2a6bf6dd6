use vstd::prelude::*;
use vstd::string::*;

use crate::data_types::{Asset, Cadence, DataType};
use crate::pair::Pair;
use crate::text::{chars_of, reversed, has_infix, has_prefix, has_suffix, is_infix, is_prefix, is_suffix};

verus! {

/// Some filter of `fs` occurs in `name`.
pub open spec fn any_infix(fs: Seq<Seq<char>>, name: Seq<char>) -> bool {
    exists|i: int| 0 <= i < fs.len() && is_infix(#[trigger] fs[i], name)
}

/// Some filter of `fs` starts `name`.
pub open spec fn any_prefix(fs: Seq<Seq<char>>, name: Seq<char>) -> bool {
    exists|i: int| 0 <= i < fs.len() && is_prefix(#[trigger] fs[i], name)
}

/// Some filter of `fs` ends `name`.
pub open spec fn any_suffix(fs: Seq<Seq<char>>, name: Seq<char>) -> bool {
    exists|i: int| 0 <= i < fs.len() && is_suffix(#[trigger] fs[i], name)
}

/// Whether a pair named `name` is kept, in this order: rejected when an excluded filter occurs
/// in it; accepted when a starts-with filter starts it or an ends-with filter ends it;
/// otherwise accepted exactly when neither positive filter is set.
pub open spec fn pair_accepted(
    excluded: Option<Seq<Seq<char>>>,
    starts_with: Option<Seq<Seq<char>>>,
    ends_with: Option<Seq<Seq<char>>>,
    name: Seq<char>,
) -> bool {
    if excluded is Some && any_infix(excluded->Some_0, name) {
        false
    } else if starts_with is Some && any_prefix(starts_with->Some_0, name) {
        true
    } else if ends_with is Some && any_suffix(ends_with->Some_0, name) {
        true
    } else {
        starts_with is None && ends_with is None
    }
}

/// The bucket path that the pairs of a coordinate are listed under.
pub open spec fn listing_path(asset: Asset, cadence: Cadence, data_type: DataType) -> Seq<char> {
    "data/"@ + asset.spec_name() + "/"@ + cadence.spec_name() + "/"@ + data_type.spec_name()
}

/// The text of each filter.
pub open spec fn filter_views(fs: Option<Vec<String>>) -> Option<Seq<Seq<char>>> {
    match fs {
        Some(v) => Some(v@.map_values(|f: String| f@)),
        None => None,
    }
}

/// A coordinate that is not implemented.
#[derive(Debug, Clone, Copy, PartialEq, Eq, Structural)]
pub enum DownloaderError {
    UnsupportedAsset(Asset),
    UnsupportedDataType(DataType),
}

/// Finds the pairs of one (asset, cadence, data type) coordinate that pass its name filters.
#[derive(Debug, Clone)]
pub struct Downloader {
    pub name: String,
    pub asset: Asset,
    pub cadence: Cadence,
    pub data_type: DataType,
    pub pair_filter_excluded: Option<Vec<String>>,
    pub pair_filter_starts_with: Option<Vec<String>>,
    pub pair_filter_ends_with: Option<Vec<String>>,
}

fn to_strings(items: &[&str]) -> (r: Vec<String>)
    ensures
        r@.map_values(|f: String| f@) == items@.map_values(|p: &str| p@),
{
    let mut r: Vec<String> = Vec::new();
    let mut i: usize = 0;
    while i < items.len()
        invariant
            i <= items@.len(),
            r@.len() == i,
            r@.map_values(|f: String| f@) == items@.subrange(0, i as int).map_values(
                |p: &str| p@,
            ),
        decreases items@.len() - i,
    {
        let ghost prev = r@;
        let s = String::from_str(items[i]);
        r.push(s);
        proof {
            let lhs = r@.map_values(|f: String| f@);
            let rhs = items@.subrange(0, i + 1).map_values(|p: &str| p@);
            assert(prev.map_values(|f: String| f@) =~= items@.subrange(0, i as int).map_values(
                |p: &str| p@,
            ));
            assert forall|j: int| 0 <= j < i + 1 implies lhs[j] == rhs[j] by {
                if j < i {
                    assert(r@[j] == prev[j]);
                    assert(prev.map_values(|f: String| f@)[j] == items@.subrange(
                        0,
                        i as int,
                    ).map_values(|p: &str| p@)[j]);
                }
            }
            assert(lhs =~= rhs);
        }
        i = i + 1;
    }
    assert(items@.subrange(0, items@.len() as int) =~= items@);
    r
}

fn any_matches(fs: &Vec<String>, name: &Vec<char>, kind: u8) -> (r: bool)
    requires
        kind < 3,
    ensures
        kind == 0 ==> r == any_infix(fs@.map_values(|f: String| f@), name@),
        kind == 1 ==> r == any_prefix(fs@.map_values(|f: String| f@), name@),
        kind == 2 ==> r == any_suffix(fs@.map_values(|f: String| f@), name@),
{
    let ghost views = fs@.map_values(|f: String| f@);
    let mut i: usize = 0;
    while i < fs.len()
        invariant
            kind < 3,
            views == fs@.map_values(|f: String| f@),
            i <= fs@.len(),
            forall|j: int|
                0 <= j < i ==> {
                    &&& (kind == 0 ==> !is_infix(#[trigger] views[j], name@))
                    &&& (kind == 1 ==> !is_prefix(views[j], name@))
                    &&& (kind == 2 ==> !is_suffix(views[j], name@))
                },
        decreases fs@.len() - i,
    {
        let f = chars_of(fs[i].as_str());
        assert(views[i as int] == f@);
        let hit = if kind == 0 {
            has_infix(&f, name)
        } else if kind == 1 {
            has_prefix(&f, name)
        } else {
            has_suffix(&f, name)
        };
        if hit {
            return true;
        }
        i = i + 1;
    }
    false
}

impl Downloader {
    /// A downloader without filters. Only spot trades are implemented: any other asset, then
    /// any other data type, is refused.
    pub fn new(name: &str, asset: Asset, cadence: Cadence, data_type: DataType) -> (r: Result<
        Downloader,
        DownloaderError,
    >)
        ensures
            asset != Asset::Spot ==> r == Err::<Downloader, DownloaderError>(
                DownloaderError::UnsupportedAsset(asset),
            ),
            asset == Asset::Spot && data_type != DataType::Trades ==> r == Err::<
                Downloader,
                DownloaderError,
            >(DownloaderError::UnsupportedDataType(data_type)),
            r is Ok <==> asset == Asset::Spot && data_type == DataType::Trades,
            r matches Ok(d) ==> {
                &&& d.name@ == name@
                &&& d.asset == asset
                &&& d.cadence == cadence
                &&& d.data_type == data_type
                &&& d.spec_excluded() is None
                &&& d.spec_starts_with() is None
                &&& d.spec_ends_with() is None
            },
    {
        if asset != Asset::Spot {
            return Err(DownloaderError::UnsupportedAsset(asset));
        }
        if data_type != DataType::Trades {
            return Err(DownloaderError::UnsupportedDataType(data_type));
        }
        Ok(Downloader {
            name: String::from_str(name),
            asset,
            cadence,
            data_type,
            pair_filter_excluded: None,
            pair_filter_starts_with: None,
            pair_filter_ends_with: None,
        })
    }

    pub open spec fn spec_excluded(&self) -> Option<Seq<Seq<char>>> {
        filter_views(self.pair_filter_excluded)
    }

    pub open spec fn spec_starts_with(&self) -> Option<Seq<Seq<char>>> {
        filter_views(self.pair_filter_starts_with)
    }

    pub open spec fn spec_ends_with(&self) -> Option<Seq<Seq<char>>> {
        filter_views(self.pair_filter_ends_with)
    }

    /// Whether this downloader keeps the pair named `name`.
    pub open spec fn spec_accepts(&self, name: Seq<char>) -> bool {
        pair_accepted(self.spec_excluded(), self.spec_starts_with(), self.spec_ends_with(), name)
    }

    /// Rejects the pairs whose name contains one of `pairs`.
    pub fn with_pair_excluded(self, pairs: &[&str]) -> (r: Downloader)
        ensures
            r.spec_excluded() == Some(pairs@.map_values(|p: &str| p@)),
            r.spec_starts_with() == self.spec_starts_with(),
            r.spec_ends_with() == self.spec_ends_with(),
            r.name == self.name && r.asset == self.asset && r.cadence == self.cadence
                && r.data_type == self.data_type,
    {
        let mut d = self;
        d.pair_filter_excluded = Some(to_strings(pairs));
        d
    }

    /// Accepts the pairs whose name starts with one of `pairs`.
    pub fn with_pair_starts_with(self, pairs: &[&str]) -> (r: Downloader)
        ensures
            r.spec_starts_with() == Some(pairs@.map_values(|p: &str| p@)),
            r.spec_excluded() == self.spec_excluded(),
            r.spec_ends_with() == self.spec_ends_with(),
            r.name == self.name && r.asset == self.asset && r.cadence == self.cadence
                && r.data_type == self.data_type,
    {
        let mut d = self;
        d.pair_filter_starts_with = Some(to_strings(pairs));
        d
    }

    /// Accepts the pairs whose name ends with one of `pairs`.
    pub fn with_pair_ends_with(self, pairs: &[&str]) -> (r: Downloader)
        ensures
            r.spec_ends_with() == Some(pairs@.map_values(|p: &str| p@)),
            r.spec_excluded() == self.spec_excluded(),
            r.spec_starts_with() == self.spec_starts_with(),
            r.name == self.name && r.asset == self.asset && r.cadence == self.cadence
                && r.data_type == self.data_type,
    {
        let mut d = self;
        d.pair_filter_ends_with = Some(to_strings(pairs));
        d
    }

    /// Whether the pair named `name` passes the filters.
    pub fn accepts(&self, name: &str) -> (r: bool)
        ensures
            r == self.spec_accepts(name@),
    {
        let n = chars_of(name);
        if let Some(ex) = &self.pair_filter_excluded {
            if any_matches(ex, &n, 0) {
                return false;
            }
        }
        if let Some(st) = &self.pair_filter_starts_with {
            if any_matches(st, &n, 1) {
                return true;
            }
        }
        if let Some(en) = &self.pair_filter_ends_with {
            if any_matches(en, &n, 2) {
                return true;
            }
        }
        self.pair_filter_starts_with.is_none() && self.pair_filter_ends_with.is_none()
    }

    /// The pairs of `pairs` that pass the filters, in their order.
    pub fn filter_pairs(&self, pairs: Vec<Pair>) -> (r: Vec<Pair>)
        ensures
            r@ == pairs@.filter(|p: Pair| self.spec_accepts(p.name@)),
    {
        let ghost pred = |p: Pair| self.spec_accepts(p.name@);
        let ghost all = pairs@;
        let n = pairs.len();
        let mut rest = reversed(pairs);
        let mut r: Vec<Pair> = Vec::new();
        let mut i: usize = 0;
        while i < n
            invariant
                pred == (|p: Pair| self.spec_accepts(p.name@)),
                n == all.len(),
                i <= n,
                rest@.len() == n - i,
                forall|j: int| 0 <= j < n - i ==> #[trigger] rest@[j] == all[n - 1 - j],
                r@ == all.subrange(0, i as int).filter(pred),
            decreases n - i,
        {
            let p = rest.pop().unwrap();
            assert(p == all[i as int]);
            let keep = self.accepts(p.name.as_str());
            let ghost prev = r@;
            if keep {
                r.push(p);
            }
            proof {
                let t = all.subrange(0, i + 1);
                assert(t.drop_last() =~= all.subrange(0, i as int));
                assert(t.last() == all[i as int]);
                reveal_with_fuel(Seq::filter, 1);
                assert(t.filter(pred) == (if pred(t.last()) {
                    t.drop_last().filter(pred).push(t.last())
                } else {
                    t.drop_last().filter(pred)
                }));
            }
            i = i + 1;
        }
        assert(all.subrange(0, n as int) =~= all);
        r
    }

    /// The bucket path that this coordinate's pairs are listed under.
    pub fn pairs_path(&self) -> (r: String)
        ensures
            r@ == listing_path(self.asset, self.cadence, self.data_type),
    {
        String::from_str("data/").concat(self.asset.as_str()).concat("/").concat(
            self.cadence.as_str(),
        ).concat("/").concat(self.data_type.as_str())
    }
}

} // verus!
