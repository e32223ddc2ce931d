//! Resolution of a sample's location ids to a leaf-first stack of names.

use vstd::prelude::*;
use std::collections::HashMap;
use crate::profile::{Function, Location, Profile, Sample};

verus! {

broadcast use vstd::std_specs::hash::group_hash_axioms;

/// The name given to an out-of-range string-table index.
pub open spec fn invalid_name() -> Seq<char> {
    "<invalid_index>"@
}

/// Entry `i` of the string table `t`, or the placeholder when out of range.
pub open spec fn string_entry(t: Seq<Seq<char>>, i: int) -> Seq<char> {
    if 0 <= i < t.len() {
        t[i]
    } else {
        invalid_name()
    }
}

/// Read access to a profile's string table that tolerates bad indices.
pub struct StringTable<'a> {
    table: &'a [String],
}

impl<'a> View for StringTable<'a> {
    type V = Seq<Seq<char>>;

    closed spec fn view(&self) -> Seq<Seq<char>> {
        self.table@.map_values(|s: String| s@)
    }
}

impl<'a> StringTable<'a> {
    pub fn new(table: &'a [String]) -> (r: Self)
        ensures
            r@ == table@.map_values(|s: String| s@),
    {
        StringTable { table }
    }

    /// The string at `index`, or `"<invalid_index>"` when it is out of range.
    pub fn get(&self, index: i64) -> (r: &'a str)
        ensures
            r@ == string_entry(self@, index as int),
    {
        if index < 0 || index as u64 >= self.table.len() as u64 {
            return "<invalid_index>";
        }
        let k = index as u64 as usize;
        self.table[k].as_str()
    }
}

/// Function id to name; a later function with the same id wins.
pub open spec fn function_names(strings: Seq<Seq<char>>, fs: Seq<Function>) -> Map<u64, Seq<char>>
    decreases fs.len(),
{
    if fs.len() == 0 {
        Map::empty()
    } else {
        function_names(strings, fs.drop_last()).insert(
            fs.last().id,
            string_entry(strings, fs.last().name as int),
        )
    }
}

/// Location id to location; a later location with the same id wins.
pub open spec fn locations_by_id(ls: Seq<Location>) -> Map<u64, Location>
    decreases ls.len(),
{
    if ls.len() == 0 {
        Map::empty()
    } else {
        locations_by_id(ls.drop_last()).insert(ls.last().id, ls.last())
    }
}

pub open spec fn name_map_view(m: Map<u64, &str>) -> Map<u64, Seq<char>> {
    m.map_values(|s: &str| s@)
}

pub open spec fn location_map_view(m: Map<u64, &Location>) -> Map<u64, Location> {
    m.map_values(|l: &Location| *l)
}

/// Names of the functions of `lines` that `fnames` knows, in order.
pub open spec fn line_names(fnames: Map<u64, Seq<char>>, lines: Seq<crate::profile::Line>) -> Seq<
    Seq<char>,
>
    decreases lines.len(),
{
    if lines.len() == 0 {
        seq![]
    } else {
        let id = lines.last().function_id;
        line_names(fnames, lines.drop_last()) + if fnames.contains_key(id) {
            seq![fnames[id]]
        } else {
            seq![]
        }
    }
}

/// The resolved leaf-first stack of names for `ids`: unknown locations and
/// unknown functions are dropped.
pub open spec fn stack_names(
    locs: Map<u64, Location>,
    fnames: Map<u64, Seq<char>>,
    ids: Seq<u64>,
) -> Seq<Seq<char>>
    decreases ids.len(),
{
    if ids.len() == 0 {
        seq![]
    } else {
        let id = ids.last();
        stack_names(locs, fnames, ids.drop_last()) + if locs.contains_key(id) {
            line_names(fnames, locs[id].line@)
        } else {
            seq![]
        }
    }
}

/// The function-name map of a profile.
pub fn function_map<'a>(profile: &'a Profile, strings: &StringTable<'a>) -> (r: HashMap<
    u64,
    &'a str,
>)
    ensures
        name_map_view(r@) == function_names(strings@, profile.function@),
{
    let fs = &profile.function;
    let mut m: HashMap<u64, &'a str> = HashMap::new();
    let mut i: usize = 0;
    while i < fs.len()
        invariant
            i <= fs@.len(),
            name_map_view(m@) == function_names(strings@, fs@.take(i as int)),
        decreases fs@.len() - i,
    {
        let f = &fs[i];
        let name = strings.get(f.name);
        m.insert(f.id, name);
        assert(fs@.take(i + 1).drop_last() =~= fs@.take(i as int));
        assert(name_map_view(m@) =~= function_names(strings@, fs@.take(i + 1)));
        i = i + 1;
    }
    assert(fs@.take(fs@.len() as int) =~= fs@);
    m
}

/// The location map of a profile.
pub fn location_map<'a>(profile: &'a Profile) -> (r: HashMap<u64, &'a Location>)
    ensures
        location_map_view(r@) == locations_by_id(profile.location@),
{
    let ls = &profile.location;
    let mut m: HashMap<u64, &'a Location> = HashMap::new();
    let mut i: usize = 0;
    while i < ls.len()
        invariant
            i <= ls@.len(),
            location_map_view(m@) == locations_by_id(ls@.take(i as int)),
        decreases ls@.len() - i,
    {
        let l = &ls[i];
        m.insert(l.id, l);
        assert(ls@.take(i + 1).drop_last() =~= ls@.take(i as int));
        assert(location_map_view(m@) =~= locations_by_id(ls@.take(i + 1)));
        i = i + 1;
    }
    assert(ls@.take(ls@.len() as int) =~= ls@);
    m
}

/// The leaf-first stack of function names of `sample`. Each location
/// contributes the names of its lines' functions; ids that the maps do not
/// hold are skipped.
pub fn extract_stack<'a>(
    sample: &'a Sample,
    location_map: &'a HashMap<u64, &'a Location>,
    function_map: &'a HashMap<u64, &'a str>,
) -> (r: Vec<&'a str>)
    ensures
        r@.map_values(|n: &str| n@) == stack_names(
            location_map_view(location_map@),
            name_map_view(function_map@),
            sample.location_id@,
        ),
{
    let ghost locs = location_map_view(location_map@);
    let ghost fnames = name_map_view(function_map@);
    let ids = &sample.location_id;
    let mut out: Vec<&'a str> = Vec::new();
    let mut i: usize = 0;
    while i < ids.len()
        invariant
            i <= ids@.len(),
            locs == location_map_view(location_map@),
            fnames == name_map_view(function_map@),
            out@.map_values(|n: &str| n@) == stack_names(locs, fnames, ids@.take(i as int)),
        decreases ids@.len() - i,
    {
        let id = ids[i];
        assert(ids@.take(i + 1).drop_last() =~= ids@.take(i as int));
        let ghost before = out@.map_values(|n: &str| n@);
        match location_map.get(&id) {
            Some(loc) => {
                let lines = &loc.line;
                assert(locs[id] == **loc);
                let mut j: usize = 0;
                while j < lines.len()
                    invariant
                        j <= lines@.len(),
                        fnames == name_map_view(function_map@),
                        out@.map_values(|n: &str| n@) == before + line_names(
                            fnames,
                            lines@.take(j as int),
                        ),
                    decreases lines@.len() - j,
                {
                    let fid = lines[j].function_id;
                    assert(lines@.take(j + 1).drop_last() =~= lines@.take(j as int));
                    match function_map.get(&fid) {
                        Some(name) => {
                            let ghost prev = out@.map_values(|n: &str| n@);
                            assert(fnames.contains_key(fid) && fnames[fid] == (*name)@);
                            out.push(*name);
                            assert(out@.map_values(|n: &str| n@) =~= prev.push((*name)@));
                            assert(out@.map_values(|n: &str| n@) =~= before + line_names(
                                fnames,
                                lines@.take(j + 1),
                            ));
                        },
                        None => {
                            assert(out@.map_values(|n: &str| n@) =~= before + line_names(
                                fnames,
                                lines@.take(j + 1),
                            ));
                        },
                    }
                    j = j + 1;
                }
                assert(lines@.take(lines@.len() as int) =~= lines@);
            },
            None => {
                assert(before + seq![] =~= before);
            },
        }
        assert(out@.map_values(|n: &str| n@) =~= stack_names(locs, fnames, ids@.take(i + 1)));
        i = i + 1;
    }
    assert(ids@.take(ids@.len() as int) =~= ids@);
    out
}

} // verus!
