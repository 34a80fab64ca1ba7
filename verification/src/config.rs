//! Resolved configuration: command-line values, file values, and the
//! precedence rule that merges them into one (count, skip, list) triple.

use vstd::prelude::*;

verus! {

/// The values the command line carried; absent flags are `None`.
#[derive(Debug)]
pub struct Cli {
    pub verbose: bool,
    pub count: Option<u32>,
    pub selected_list: Option<String>,
    pub skip_amount: Option<u32>,
}

/// The values the configuration file carried; absent keys are `None`.
/// `lists` maps each list name to its ordered source URLs.
#[derive(Debug)]
pub struct Config {
    pub count: Option<u32>,
    pub skip_amount: Option<u32>,
    pub selected_list: Option<String>,
    pub lists: Vec<(String, Vec<String>)>,
}

/// The count to use when neither the command line nor the file names one.
pub const DEFAULT_COUNT: u32 = 8;

/// The skip to use when neither the command line nor the file names one.
pub const DEFAULT_SKIP: u32 = 0;

/// The precedence rule for one numeric parameter: the command-line value
/// wins, then the file value, then the default.
pub open spec fn resolved(cli: Option<u32>, file: Option<u32>, fallback: u32) -> u32 {
    match cli {
        Some(v) => v,
        None => match file {
            Some(v) => v,
            None => fallback,
        },
    }
}

/// The precedence rule for the selected list name: the command-line value
/// wins, then the file value.
pub open spec fn resolved_list(cli: Option<Seq<char>>, file: Option<Seq<char>>) -> Seq<char>
    recommends
        cli is Some || file is Some,
{
    match cli {
        Some(s) => s,
        None => match file {
            Some(s) => s,
            None => Seq::empty(),
        },
    }
}

/// Merges command-line and file values into the resolved (count, skip,
/// list-name) triple: each command-line value wins over its file value,
/// and the numeric parameters fall back to their defaults. A run without a
/// selected list from either side cannot proceed, so one is required.
pub fn collate_values(args: Cli, config: &Config) -> (r: (u32, u32, String))
    requires
        args.selected_list is Some || config.selected_list is Some,
    ensures
        r.0 == resolved(args.count, config.count, DEFAULT_COUNT),
        r.1 == resolved(args.skip_amount, config.skip_amount, DEFAULT_SKIP),
        r.2@ == resolved_list(
            match args.selected_list {
                Some(s) => Some(s@),
                None => None,
            },
            match config.selected_list {
                Some(s) => Some(s@),
                None => None,
            },
        ),
{
    let count: u32 = match args.count {
        Some(v) => v,
        None => match config.count {
            Some(v) => v,
            None => DEFAULT_COUNT,
        },
    };
    let skip_amount: u32 = match args.skip_amount {
        Some(v) => v,
        None => match config.skip_amount {
            Some(v) => v,
            None => DEFAULT_SKIP,
        },
    };
    let list: String = match args.selected_list {
        Some(s) => s,
        None => match &config.selected_list {
            Some(s) => s.clone(),
            None => {
                proof {
                    assert(false);
                }
                String::new()
            },
        },
    };
    (count, skip_amount, list)
}

/// The sources of the first list whose name matches, if any.
pub open spec fn find_list(lists: Seq<(String, Vec<String>)>, name: Seq<char>) -> Option<
    Vec<String>,
>
    decreases lists.len(),
{
    if lists.len() == 0 {
        None
    } else if lists[0].0@ == name {
        Some(lists[0].1)
    } else {
        find_list(lists.drop_first(), name)
    }
}

/// Looks the selected list up by name: the ordered source URLs of the
/// first list so named, or nothing where no list carries the name.
pub fn select_list<'a>(config: &'a Config, name: &String) -> (r: Option<&'a Vec<String>>)
    ensures
        match r {
            Some(v) => find_list(config.lists@, name@) == Some(*v),
            None => find_list(config.lists@, name@) is None,
        },
{
    let ghost whole = config.lists@;
    let mut i: usize = 0;
    proof {
        assert(whole.skip(0) =~= whole);
    }
    while i < config.lists.len()
        invariant
            i <= config.lists@.len(),
            config.lists@ == whole,
            find_list(whole, name@) == find_list(whole.skip(i as int), name@),
        decreases config.lists@.len() - i,
    {
        let ghost tail = whole.skip(i as int);
        proof {
            assert(tail[0] == whole[i as int]);
            assert(tail.drop_first() =~= whole.skip(i as int + 1));
        }
        if config.lists[i].0 == *name {
            return Some(&config.lists[i].1);
        }
        i = i + 1;
    }
    proof {
        assert(whole.skip(i as int) =~= Seq::<(String, Vec<String>)>::empty());
    }
    None
}

} // verus!
