//! Loading the program images that the kernel image carries.
//!
//! Two tables describe the images. The plain one is a count and then the
//! start of each image and the end of the last, as machine words. The one
//! with names is a run of bytes: a count, and then for each image the length
//! of its name, the name, its start and its end, every number as eight bytes,
//! the lowest first.

use vstd::prelude::*;
use crate::batch::{app_table_ok, LoadPlan, APP_BASE_ADDRESS, APP_SIZE_LIMIT, MAX_APP_NUM};

verus! {

/// The address of the area in which the program `app_id` runs: the areas lie
/// one behind the other.
pub open spec fn spec_base_addr(app_id: nat) -> nat {
    APP_BASE_ADDRESS as nat + app_id * (APP_SIZE_LIMIT as nat)
}

/// The address of the area in which the program `app_id` runs.
pub fn get_base_addr(app_id: usize) -> (r: u64)
    requires
        app_id <= MAX_APP_NUM,
    ensures
        r == spec_base_addr(app_id as nat),
{
    APP_BASE_ADDRESS + (app_id as u64) * APP_SIZE_LIMIT
}

/// The plan for loading the program `i` of the plain table `table` into its
/// own area.
pub open spec fn spec_load_plan(table: Seq<u64>, i: int) -> LoadPlan {
    LoadPlan {
        clear_start: spec_base_addr(i as nat) as u64,
        clear_len: APP_SIZE_LIMIT,
        src: table[i + 1],
        len: (table[i + 2] - table[i + 1]) as u64,
        dst: spec_base_addr(i as nat) as u64,
    }
}

/// Plans the load of every program of the plain table, each into its own
/// area. Fails where the table is not a table of program images.
pub fn load_apps(table: &Vec<u64>) -> (r: Option<Vec<LoadPlan>>)
    ensures
        r is Some <==> app_table_ok(table@),
        r matches Some(plans) ==> {
            &&& plans@.len() == table@[0]
            &&& forall|i: int| 0 <= i < plans@.len() ==> #[trigger] plans@[i] == spec_load_plan(table@, i)
        },
{
    if table.len() < 1 {
        return None;
    }
    let count = table[0];
    if count > MAX_APP_NUM as u64 {
        return None;
    }
    let num_app = count as usize;
    if table.len() < num_app + 2 {
        return None;
    }
    let mut plans: Vec<LoadPlan> = Vec::new();
    let mut i: usize = 0;
    while i < num_app
        invariant
            i <= num_app,
            num_app <= MAX_APP_NUM,
            num_app == table@[0],
            table@.len() >= num_app + 2,
            plans@.len() == i,
            forall|j: int| 1 <= j <= i ==> #[trigger] table@[j] <= table@[j + 1],
            forall|j: int| 0 <= j < i ==> #[trigger] plans@[j] == spec_load_plan(table@, j),
        decreases num_app - i,
    {
        if table[i + 1] > table[i + 2] {
            return None;
        }
        let base_addr = get_base_addr(i);
        plans.push(
            LoadPlan {
                clear_start: base_addr,
                clear_len: APP_SIZE_LIMIT,
                src: table[i + 1],
                len: table[i + 2] - table[i + 1],
                dst: base_addr,
            },
        );
        i += 1;
    }
    Some(plans)
}

/// One program of the table with names.
#[derive(Clone, Debug)]
pub struct App {
    /// The name, as the bytes that the table holds.
    pub name: Vec<u8>,
    /// The first address of the image.
    pub start: u64,
    /// The address behind the image.
    pub end: u64,
}

/// One program of the table with names, as mathematical values.
pub struct AppEntry {
    pub name: Seq<u8>,
    pub start: u64,
    pub end: u64,
}

impl View for App {
    type V = AppEntry;

    open spec fn view(&self) -> AppEntry {
        AppEntry { name: self.name@, start: self.start, end: self.end }
    }
}

/// The programs of the table with names.
#[derive(Clone, Debug)]
pub struct AppLoader {
    pub apps: Vec<App>,
}

/// The number that the eight bytes from `at` on spell, the lowest byte first.
pub open spec fn word_at(bytes: Seq<u8>, at: int) -> u64 {
    (bytes[at] as int + bytes[at + 1] as int * 0x100 + bytes[at + 2] as int * 0x1_0000 + bytes[at + 3] as int
        * 0x100_0000 + bytes[at + 4] as int * 0x1_0000_0000 + bytes[at + 5] as int * 0x100_0000_0000 + bytes[at
        + 6] as int * 0x1_0000_0000_0000 + bytes[at + 7] as int * 0x100_0000_0000_0000) as u64
}

/// The entries of a table with names that begin at the byte `at`, `count` of
/// them; nothing if the bytes end too early or an image ends before it
/// begins.
pub open spec fn parse_entries(bytes: Seq<u8>, at: int, count: nat) -> Option<Seq<AppEntry>>
    decreases count,
{
    if count == 0 {
        Some(Seq::empty())
    } else if at + 8 > bytes.len() {
        None
    } else {
        let name_len = word_at(bytes, at) as int;
        if at + 8 + name_len + 16 > bytes.len() {
            None
        } else {
            let start = word_at(bytes, at + 8 + name_len);
            let end = word_at(bytes, at + 16 + name_len);
            if end < start {
                None
            } else {
                match parse_entries(bytes, at + 24 + name_len, (count - 1) as nat) {
                    Some(rest) => Some(
                        seq![AppEntry { name: bytes.subrange(at + 8, at + 8 + name_len), start, end }] + rest,
                    ),
                    None => None,
                }
            }
        }
    }
}

/// The entries of a table with names: the count, then the entries.
pub open spec fn parse_app_meta(bytes: Seq<u8>) -> Option<Seq<AppEntry>> {
    if bytes.len() < 8 {
        None
    } else {
        parse_entries(bytes, 8, word_at(bytes, 0) as nat)
    }
}

/// The views of a list of programs.
pub open spec fn app_views(apps: Seq<App>) -> Seq<AppEntry> {
    apps.map_values(|a: App| a@)
}

/// Reads the eight bytes from `at` on as a number, the lowest byte first.
fn read_word(bytes: &Vec<u8>, at: usize) -> (r: u64)
    requires
        at + 8 <= bytes.len(),
    ensures
        r == word_at(bytes@, at as int),
{
    let b0 = bytes[at];
    let b1 = bytes[at + 1];
    let b2 = bytes[at + 2];
    let b3 = bytes[at + 3];
    let b4 = bytes[at + 4];
    let b5 = bytes[at + 5];
    let b6 = bytes[at + 6];
    let b7 = bytes[at + 7];
    assert((b0 as u64) | ((b1 as u64) << 8) | ((b2 as u64) << 16) | ((b3 as u64) << 24) | ((b4 as u64) << 32) | ((
    b5 as u64) << 40) | ((b6 as u64) << 48) | ((b7 as u64) << 56) == b0 as int + b1 as int * 0x100 + b2 as int
        * 0x1_0000 + b3 as int * 0x100_0000 + b4 as int * 0x1_0000_0000 + b5 as int * 0x100_0000_0000 + b6 as int
        * 0x1_0000_0000_0000 + b7 as int * 0x100_0000_0000_0000) by (bit_vector);
    (b0 as u64) | ((b1 as u64) << 8) | ((b2 as u64) << 16) | ((b3 as u64) << 24) | ((b4 as u64) << 32) | ((b5 as u64)
        << 40) | ((b6 as u64) << 48) | ((b7 as u64) << 56)
}

/// The entries read so far, followed by those that are still to come.
pub open spec fn entries_then(done: Seq<AppEntry>, rest: Option<Seq<AppEntry>>) -> Option<Seq<AppEntry>> {
    match rest {
        Some(more) => Some(done + more),
        None => None,
    }
}

impl AppLoader {
    /// Reads the table with names. Fails where the bytes end before the table
    /// does, or where an image ends before it begins.
    pub fn new(meta: &Vec<u8>) -> (r: Option<AppLoader>)
        ensures
            match r {
                Some(loader) => parse_app_meta(meta@) == Some(app_views(loader.apps@)),
                None => parse_app_meta(meta@) is None,
            },
    {
        if meta.len() < 8 {
            return None;
        }
        let num_app = read_word(meta, 0);
        let mut apps: Vec<App> = Vec::new();
        let mut cur: usize = 8;
        let mut done: u64 = 0;
        proof {
            assert(app_views(apps@) =~= Seq::empty());
            match parse_entries(meta@, 8, num_app as nat) {
                Some(more) => {
                    assert(Seq::<AppEntry>::empty() + more =~= more);
                },
                None => {},
            }
        }
        while done < num_app
            invariant
                done <= num_app,
                8 <= cur <= meta.len(),
                apps@.len() == done,
                parse_app_meta(meta@) == entries_then(
                    app_views(apps@),
                    parse_entries(meta@, cur as int, (num_app - done) as nat),
                ),
            decreases num_app - done,
        {
            if meta.len() - cur < 8 {
                return None;
            }
            let name_len = read_word(meta, cur);
            let room = meta.len() - cur - 8;
            if name_len > room as u64 {
                return None;
            }
            if room - (name_len as usize) < 16 {
                return None;
            }
            let name_start = cur + 8;
            let name_end = name_start + name_len as usize;
            let start = read_word(meta, name_end);
            let end = read_word(meta, name_end + 8);
            if end < start {
                return None;
            }
            let mut name: Vec<u8> = Vec::new();
            let mut k: usize = name_start;
            while k < name_end
                invariant
                    name_start <= k <= name_end <= meta.len(),
                    name@ == meta@.subrange(name_start as int, k as int),
                decreases name_end - k,
            {
                name.push(meta[k]);
                assert(name@ =~= meta@.subrange(name_start as int, k + 1));
                k += 1;
            }
            let ghost before = app_views(apps@);
            let ghost first = AppEntry { name: name@, start, end };
            apps.push(App { name, start, end });
            proof {
                assert(app_views(apps@) =~= before.push(first));
                match parse_entries(meta@, name_end + 16, (num_app - done - 1) as nat) {
                    Some(rest) => {
                        assert(before + (seq![first] + rest) =~= before.push(first) + rest);
                    },
                    None => {},
                }
            }
            cur = name_end + 16;
            done = done + 1;
        }
        proof {
            assert(app_views(apps@) + Seq::<AppEntry>::empty() =~= app_views(apps@));
        }
        Some(AppLoader { apps })
    }
}

} // verus!
