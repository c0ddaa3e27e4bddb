//! The run configuration, and its rebuilding from whitespace-delimited
//! configuration lines.  A configuration file fully supersedes any prior
//! state: the fields are cleared first, then each line is applied in turn;
//! unknown flags, duplicate flags and flags missing their value are ignored,
//! a malformed size value is fatal, and a missing root directory after all
//! lines were applied is fatal.

use vstd::prelude::*;

use crate::digits::{parse_u64, spec_parse_u64};
use crate::text::{spec_split, split_on, str_eq};
use crate::CleanError;

verus! {

/// The configuration consumed by a cleanup run.
#[derive(Debug)]
pub struct Args {
    pub types: Vec<String>,
    pub min_size: Option<u64>,
    pub dir: String,
    pub dry_run: bool,
    pub remove_duplicates: bool,
    pub age: Option<String>,
    pub files_to_ignore: Vec<String>,
    pub config_file: Option<String>,
}

/// The mathematical view of an [`Args`].
#[verifier::ext_equal]
pub struct ArgsView {
    pub types: Seq<Seq<char>>,
    pub min_size: Option<u64>,
    pub dir: Seq<char>,
    pub dry_run: bool,
    pub remove_duplicates: bool,
    pub age: Option<Seq<char>>,
    pub files_to_ignore: Seq<Seq<char>>,
    pub config_file: Option<Seq<char>>,
}

impl View for Args {
    type V = ArgsView;

    open spec fn view(&self) -> ArgsView {
        ArgsView {
            types: self.types.deep_view(),
            min_size: self.min_size,
            dir: self.dir@,
            dry_run: self.dry_run,
            remove_duplicates: self.remove_duplicates,
            age: self.age.deep_view(),
            files_to_ignore: self.files_to_ignore.deep_view(),
            config_file: self.config_file.deep_view(),
        }
    }
}

/// The configuration with every run field reset; only the configuration
/// file's own path survives.
pub open spec fn spec_cleared(a: ArgsView) -> ArgsView {
    ArgsView {
        types: Seq::empty(),
        min_size: None,
        dir: Seq::empty(),
        dry_run: false,
        remove_duplicates: false,
        age: None,
        files_to_ignore: Seq::empty(),
        config_file: a.config_file,
    }
}

impl Args {
    /// Reset every run field, keeping only the configuration file's path:
    /// values from a configuration file take precedence over anything held
    /// before.
    pub fn clear(&mut self)
        ensures
            final(self)@ == spec_cleared(old(self)@),
    {
        self.min_size = None;
        self.types = Vec::new();
        self.dir = String::new();
        self.age = None;
        self.dry_run = false;
        self.files_to_ignore = Vec::new();
        self.remove_duplicates = false;
        proof {
            assert(self.types.deep_view() =~= Seq::<Seq<char>>::empty());
            assert(self.files_to_ignore.deep_view() =~= Seq::<Seq<char>>::empty());
            assert(self@ =~= spec_cleared(old(self)@));
        }
    }
}

/// How one configuration line changes the configuration.  The first token
/// is the flag; a duplicate flag, an unknown flag or a flag missing its
/// value leaves the configuration as it was, and only a malformed size
/// value is an error.
pub open spec fn spec_build_args(a: ArgsView, line: Seq<Seq<char>>) -> Result<
    ArgsView,
    CleanError,
> {
    if line.len() == 0 {
        Ok(a)
    } else if line[0] == "--dir"@ || line[0] == "-d"@ {
        if a.dir.len() > 0 {
            Ok(a)
        } else if line.len() > 1 {
            Ok(ArgsView { dir: line[1], ..a })
        } else {
            Ok(a)
        }
    } else if line[0] == "--size"@ || line[0] == "-s"@ {
        if a.min_size is Some {
            Ok(a)
        } else if line.len() > 1 {
            match spec_parse_u64(line[1]) {
                Some(v) => Ok(ArgsView { min_size: Some(v), ..a }),
                None => Err(CleanError::InvalidSizeValue),
            }
        } else {
            Ok(a)
        }
    } else if line[0] == "--dryrun"@ || line[0] == "-n"@ {
        Ok(ArgsView { dry_run: true, ..a })
    } else if line[0] == "--dedup"@ || line[0] == "-r"@ {
        Ok(ArgsView { remove_duplicates: true, ..a })
    } else if line[0] == "--age"@ || line[0] == "-a"@ {
        if a.age is Some {
            Ok(a)
        } else if line.len() > 1 {
            Ok(ArgsView { age: Some(line[1]), ..a })
        } else {
            Ok(a)
        }
    } else if line[0] == "--files_to_ignore"@ || line[0] == "-i"@ {
        if a.files_to_ignore.len() > 0 {
            Ok(a)
        } else if line.len() > 1 {
            Ok(ArgsView { files_to_ignore: line.subrange(1, line.len() as int), ..a })
        } else {
            Ok(a)
        }
    } else if line[0] == "--types"@ || line[0] == "-t"@ {
        if a.types.len() > 0 {
            Ok(a)
        } else if line.len() > 1 {
            Ok(ArgsView { types: line.subrange(1, line.len() as int), ..a })
        } else {
            Ok(a)
        }
    } else {
        Ok(a)
    }
}

fn collect_values(line_arg: &Vec<&str>) -> (vals: Vec<String>)
    requires
        line_arg@.len() > 1,
    ensures
        vals.deep_view() == line_arg.deep_view().subrange(1, line_arg.deep_view().len() as int),
{
    let n = line_arg.len();
    let mut vals: Vec<String> = Vec::new();
    let mut k: usize = 1;
    proof {
        assert(vals.deep_view() =~= line_arg.deep_view().subrange(1, 1));
    }
    while k < n
        invariant
            n == line_arg@.len(),
            1 <= k <= n,
            vals.deep_view() == line_arg.deep_view().subrange(1, k as int),
        decreases n - k,
    {
        let ghost pre = vals.deep_view();
        vals.push(line_arg[k].to_owned());
        proof {
            assert(vals.deep_view() =~= pre.push(line_arg.deep_view()[k as int]));
            assert(pre.push(line_arg.deep_view()[k as int]) =~= line_arg.deep_view().subrange(
                1,
                k + 1,
            ));
        }
        k = k + 1;
    }
    vals
}

/// Apply one whitespace-split configuration line to the configuration.
/// Exactly [`spec_build_args`]: a duplicate, unknown or incomplete flag
/// changes nothing, and only a malformed size value is an error, leaving
/// the configuration untouched.
pub fn build_args(args: &mut Args, line_arg: &Vec<&str>) -> (r: Result<(), CleanError>)
    ensures
        ({
            let res = spec_build_args(old(args)@, line_arg.deep_view());
            match r {
                Ok(()) => res == Ok::<ArgsView, CleanError>(final(args)@),
                Err(e) => res == Err::<ArgsView, CleanError>(e) && final(args)@ == old(args)@,
            }
        }),
{
    let ghost line = line_arg.deep_view();
    if line_arg.len() == 0 {
        return Ok(());
    }
    let verb = line_arg[0];
    proof {
        assert(verb@ == line[0]);
    }
    if str_eq(verb, "--dir") || str_eq(verb, "-d") {
        if args.dir.as_str().is_empty() {
            if line_arg.len() > 1 {
                args.dir = line_arg[1].to_owned();
                proof {
                    assert(args@ =~= ArgsView { dir: line[1], ..old(args)@ });
                }
            }
        }
        Ok(())
    } else if str_eq(verb, "--size") || str_eq(verb, "-s") {
        if args.min_size.is_none() && line_arg.len() > 1 {
            match parse_u64(line_arg[1]) {
                Some(v) => {
                    args.min_size = Some(v);
                    proof {
                        assert(args@ =~= ArgsView { min_size: Some(v), ..old(args)@ });
                    }
                    Ok(())
                },
                None => Err(CleanError::InvalidSizeValue),
            }
        } else {
            Ok(())
        }
    } else if str_eq(verb, "--dryrun") || str_eq(verb, "-n") {
        args.dry_run = true;
        proof {
            assert(args@ =~= ArgsView { dry_run: true, ..old(args)@ });
        }
        Ok(())
    } else if str_eq(verb, "--dedup") || str_eq(verb, "-r") {
        args.remove_duplicates = true;
        proof {
            assert(args@ =~= ArgsView { remove_duplicates: true, ..old(args)@ });
        }
        Ok(())
    } else if str_eq(verb, "--age") || str_eq(verb, "-a") {
        if args.age.is_none() && line_arg.len() > 1 {
            args.age = Some(line_arg[1].to_owned());
            proof {
                assert(args@ =~= ArgsView { age: Some(line[1]), ..old(args)@ });
            }
        }
        Ok(())
    } else if str_eq(verb, "--files_to_ignore") || str_eq(verb, "-i") {
        if args.files_to_ignore.len() == 0 && line_arg.len() > 1 {
            args.files_to_ignore = collect_values(line_arg);
            proof {
                assert(old(args)@.files_to_ignore.len() == 0);
                assert(args@ =~= ArgsView {
                    files_to_ignore: line.subrange(1, line.len() as int),
                    ..old(args)@
                });
            }
        } else {
            proof {
                assert(args.files_to_ignore.deep_view().len() == args.files_to_ignore@.len());
            }
        }
        Ok(())
    } else if str_eq(verb, "--types") || str_eq(verb, "-t") {
        if args.types.len() == 0 && line_arg.len() > 1 {
            args.types = collect_values(line_arg);
            proof {
                assert(old(args)@.types.len() == 0);
                assert(args@ =~= ArgsView {
                    types: line.subrange(1, line.len() as int),
                    ..old(args)@
                });
            }
        } else {
            proof {
                assert(args.types.deep_view().len() == args.types@.len());
            }
        }
        Ok(())
    } else {
        Ok(())
    }
}

/// The configuration after the lines of a configuration file, processed in
/// order from a cleared state by [`spec_build_args`], each line split on
/// single spaces; processing stops at the first error.
pub open spec fn spec_rebuild_lines(a: ArgsView, lines: Seq<Seq<char>>) -> (ArgsView, Option<
    CleanError,
>)
    decreases lines.len(),
{
    if lines.len() == 0 {
        (a, None)
    } else {
        match spec_build_args(a, spec_split(lines.first(), ' ')) {
            Ok(a2) => spec_rebuild_lines(a2, lines.drop_first()),
            Err(e) => (a, Some(e)),
        }
    }
}

/// Rebuild the configuration from the lines of a configuration file.  The
/// run fields are cleared first — file values fully supersede prior state —
/// then each line is applied in order.  A malformed size value aborts at
/// that line; a configuration without a root directory after all lines is
/// the fatal [`CleanError::MissingDirectory`].
pub fn rebuild_args_from_lines(args: &mut Args, lines: &Vec<String>) -> (r: Result<
    (),
    CleanError,
>)
    ensures
        ({
            let st = spec_rebuild_lines(spec_cleared(old(args)@), lines.deep_view()).0;
            let err = spec_rebuild_lines(spec_cleared(old(args)@), lines.deep_view()).1;
            &&& final(args)@ == st
            &&& match r {
                Ok(()) => err is None && st.dir.len() > 0,
                Err(e) => match err {
                    Some(e2) => e == e2,
                    None => st.dir.len() == 0 && e == CleanError::MissingDirectory,
                },
            }
        }),
{
    args.clear();
    let ghost a0 = args@;
    let ghost lines_dv = lines.deep_view();
    let n = lines.len();
    let mut k: usize = 0;
    proof {
        assert(lines_dv.skip(0) =~= lines_dv);
    }
    while k < n
        invariant
            n == lines@.len(),
            k <= n,
            lines_dv == lines.deep_view(),
            a0 == spec_cleared(old(args)@),
            spec_rebuild_lines(a0, lines_dv) == spec_rebuild_lines(args@, lines_dv.skip(k as int)),
        decreases n - k,
    {
        let parts = split_on(lines[k].as_str(), ' ');
        let mut line_arg: Vec<&str> = Vec::new();
        let m = parts.len();
        let mut t: usize = 0;
        while t < m
            invariant
                m == parts@.len(),
                t <= m,
                line_arg@.len() == t,
                forall|u: int| 0 <= u < t ==> line_arg@[u]@ == parts@[u]@,
            decreases m - t,
        {
            line_arg.push(parts[t].as_str());
            t = t + 1;
        }
        proof {
            assert(line_arg.deep_view() =~= parts.deep_view());
            assert(lines_dv.skip(k as int).first() == lines_dv[k as int]);
            assert(line_arg.deep_view() == spec_split(lines_dv[k as int], ' '));
        }
        let ghost pre = args@;
        match build_args(args, &line_arg) {
            Ok(()) => {
                proof {
                    assert(spec_build_args(pre, line_arg.deep_view()) == Ok::<
                        ArgsView,
                        CleanError,
                    >(args@));
                    assert(lines_dv.skip(k as int).drop_first() =~= lines_dv.skip(k + 1));
                    assert(spec_rebuild_lines(pre, lines_dv.skip(k as int)) == spec_rebuild_lines(
                        args@,
                        lines_dv.skip(k + 1),
                    ));
                }
            },
            Err(e) => {
                proof {
                    assert(spec_rebuild_lines(pre, lines_dv.skip(k as int)) == (
                        pre,
                        Some(e),
                    ));
                }
                return Err(e);
            },
        }
        k = k + 1;
    }
    proof {
        assert(lines_dv.skip(n as int) =~= Seq::<Seq<char>>::empty());
        assert(spec_rebuild_lines(args@, lines_dv.skip(n as int)) == (args@, None::<CleanError>));
    }
    if args.dir.as_str().is_empty() {
        Err(CleanError::MissingDirectory)
    } else {
        Ok(())
    }
}

} // verus!
