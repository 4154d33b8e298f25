//! Building external commands.
//!
//! A command is a program name, its argument list, and a dry-run flag. The
//! library only builds command values; running them is the surrounding
//! program's job, and in dry-run mode a command is not run at all.

use vstd::prelude::*;
use vstd::string::*;

verus! {

/// One external command, fully assembled.
#[derive(Debug, PartialEq, Eq)]
pub struct CmdBuilder {
    pub program: String,
    pub args: Vec<String>,
    pub dry_run: bool,
}

/// Mathematical image of `CmdBuilder`.
pub ghost struct CmdBuilderV {
    pub program: Seq<char>,
    pub args: Seq<Seq<char>>,
    pub dry_run: bool,
}

impl DeepView for CmdBuilder {
    type V = CmdBuilderV;

    open spec fn deep_view(&self) -> CmdBuilderV {
        CmdBuilderV {
            program: self.program@,
            args: self.args.deep_view(),
            dry_run: self.dry_run,
        }
    }
}

impl Clone for CmdBuilder {
    fn clone(&self) -> (r: Self)
        ensures
            r.deep_view() == self.deep_view(),
    {
        let args = self.args.clone();
        proof {
            assert forall|i: int| 0 <= i < self.args@.len() implies args@[i] == self.args@[i] by {
                assert(vstd::pervasive::cloned::<String>(self.args@[i], args@[i]));
            }
            assert(args.deep_view() =~= self.args.deep_view());
        }
        CmdBuilder { program: self.program.clone(), args, dry_run: self.dry_run }
    }
}

impl CmdBuilder {
    /// A command for the given program, with no arguments, not dry-run.
    pub fn new(program: &str) -> (r: Self)
        ensures
            r.deep_view() == (CmdBuilderV {
                program: program@,
                args: Seq::<Seq<char>>::empty(),
                dry_run: false,
            }),
    {
        let r = CmdBuilder {
            program: String::from_str(program),
            args: Vec::new(),
            dry_run: false,
        };
        proof {
            assert(r.args.deep_view() =~= Seq::<Seq<char>>::empty());
        }
        r
    }

    /// The same command with the dry-run flag set as given.
    pub fn with_dry_run(self, dry_run: bool) -> (r: Self)
        ensures
            r.deep_view() == (CmdBuilderV { dry_run, ..self.deep_view() }),
    {
        let mut r = self;
        r.dry_run = dry_run;
        r
    }

    /// Append one argument.
    pub fn arg(&mut self, arg: &str)
        ensures
            final(self).deep_view() == (CmdBuilderV {
                args: old(self).deep_view().args.push(arg@),
                ..old(self).deep_view()
            }),
    {
        let ghost prev = self.args.deep_view();
        self.args.push(String::from_str(arg));
        proof {
            assert(self.args.deep_view() =~= prev.push(arg@));
        }
    }

    /// Append a list of arguments, in order.
    pub fn args(&mut self, args: &[&str])
        ensures
            final(self).deep_view() == (CmdBuilderV {
                args: old(self).deep_view().args + args.deep_view(),
                ..old(self).deep_view()
            }),
    {
        let n: usize = args.len();
        let mut i: usize = 0;
        proof {
            assert(old(self).deep_view().args + args.deep_view().take(0) =~= old(
                self,
            ).deep_view().args);
        }
        while i < n
            invariant
                0 <= i <= n == args@.len(),
                self.program@ == old(self).program@,
                self.dry_run == old(self).dry_run,
                self.args.deep_view() == old(self).deep_view().args + args.deep_view().take(
                    i as int,
                ),
            decreases n - i,
        {
            let a: &str = args[i];
            proof {
                assert(args.deep_view()[i as int] == a@);
            }
            self.arg(a);
            proof {
                assert(args.deep_view().take(i + 1) =~= args.deep_view().take(i as int).push(
                    a@,
                ));
                assert(self.args.deep_view() =~= old(self).deep_view().args
                    + args.deep_view().take(i + 1));
            }
            i = i + 1;
        }
        proof {
            assert(args.deep_view().take(n as int) =~= args.deep_view());
        }
    }
}

} // verus!
