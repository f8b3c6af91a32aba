//! A greeting that reports who runs the program, where, and with what arguments.

use vstd::prelude::*;
use vstd::string::StringExecFns;

verus! {

/// Who runs the program, on which system, with which arguments.
#[derive(Debug, PartialEq, Eq)]
pub struct RunInfo {
    pub name: String,
    pub os: String,
    pub args: Vec<String>,
}

/// The arguments joined by commas, or `none` where there are none.
pub open spec fn args_text(args: Seq<String>) -> Seq<char>
    decreases args.len(),
{
    if args.len() == 0 {
        "none"@
    } else if args.len() == 1 {
        args[0]@
    } else {
        args_text(args.drop_last()) + ", "@ + args.last()@
    }
}

/// The three lines of the report.
pub open spec fn report(name: Seq<char>, os: Seq<char>, args: Seq<String>) -> Seq<char> {
    "Hello, "@ + name + "!\nOperating system: "@ + os + "\nArguments: "@ + args_text(args)
}

impl RunInfo {
    /// Run information from a command line whose first item, the program, is dropped.
    pub fn from_iter(name: &str, os: &str, iter: Vec<&str>) -> (r: RunInfo)
        ensures
            r.name@ == name@,
            r.os@ == os@,
            iter@.len() == 0 ==> r.args@.len() == 0,
            iter@.len() > 0 ==> r.args@.len() == iter@.len() - 1,
            forall|i: int| 0 <= i < r.args@.len() ==> (#[trigger] r.args@[i])@ == iter@[i + 1]@,
    {
        let mut args: Vec<String> = Vec::new();
        let mut i: usize = 1;
        while i < iter.len()
            invariant
                1 <= i,
                iter@.len() > 0 ==> i <= iter@.len(),
                iter@.len() == 0 ==> i == 1,
                args@.len() == i - 1,
                forall|j: int| 0 <= j < args@.len() ==> (#[trigger] args@[j])@ == iter@[j + 1]@,
            decreases iter@.len() - i,
        {
            args.push(String::from_str(iter[i]));
            i = i + 1;
        }
        RunInfo { name: String::from_str(name), os: String::from_str(os), args }
    }

    /// The report: a greeting, the operating system, and the arguments.
    pub fn to_string(&self) -> (r: String)
        ensures
            r@ == report(self.name@, self.os@, self.args@),
    {
        let mut s = String::from_str("Hello, ");
        s.append(self.name.as_str());
        s.append("!\nOperating system: ");
        s.append(self.os.as_str());
        s.append("\nArguments: ");
        if self.args.len() == 0 {
            s.append("none");
        } else {
            let ghost before = s@;
            s.append(self.args[0].as_str());
            let mut i: usize = 1;
            assert(self.args@.subrange(0, 1).len() == 1);
            while i < self.args.len()
                invariant
                    1 <= i <= self.args@.len(),
                    s@ == before + args_text(self.args@.subrange(0, i as int)),
                decreases self.args@.len() - i,
            {
                s.append(", ");
                s.append(self.args[i].as_str());
                let ghost t = self.args@.subrange(0, i + 1);
                assert(t.drop_last() =~= self.args@.subrange(0, i as int));
                i = i + 1;
            }
            assert(self.args@.subrange(0, self.args@.len() as int) =~= self.args@);
        }
        s
    }
}

} // verus!
