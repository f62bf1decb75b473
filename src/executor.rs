//! Interpreter choice, interpreter-version checks and how a child's end is reported.
use vstd::prelude::*;
use crate::error::Error;
use crate::versions::{is_range, is_semver, range_matches, semver_above};

verus! {

/// The text without leading and trailing whitespace (`str::trim`).
pub uninterp spec fn trim_of(s: Seq<char>) -> Seq<char>;

/// Relies on `str::trim`: the result depends on the characters alone, and
/// an empty text stays empty.
#[verifier::external_body]
pub(crate) fn trimmed(s: &str) -> (r: &str)
    ensures
        r@ == trim_of(s@),
        s@.len() == 0 ==> r@.len() == 0,
{
    s.trim()
}

/// Launches tools through an interpreter; it holds no state.
pub struct Executor;

/// Whether the interpreter version `v` satisfies the project's requirement `c`: an empty
/// requirement always does; a plain version is a minimum; a range is matched.
pub open spec fn php_matches_spec(v: Seq<char>, c: Seq<char>) -> bool {
    let c = trim_of(c);
    if c.len() == 0 {
        true
    } else if !is_semver(v) {
        false
    } else if is_semver(c) {
        !semver_above(c, v)
    } else if is_range(c) {
        range_matches(c, v)
    } else {
        false
    }
}

pub open spec fn is_version_char(ch: char) -> bool {
    ('0' <= ch && ch <= '9') || ch == '.'
}

/// The leading run of digits and dots.
pub open spec fn numeric_prefix(s: Seq<char>) -> Seq<char>
    decreases s.len(),
{
    if s.len() > 0 && is_version_char(s[0]) {
        seq![s[0]] + numeric_prefix(s.skip(1))
    } else {
        Seq::<char>::empty()
    }
}

/// The version an interpreter reports, reduced to its leading digits and dots.
pub open spec fn core_version_spec(out: Seq<char>) -> Option<Seq<char>> {
    let v = trim_of(out);
    if v.len() == 0 || numeric_prefix(v).len() == 0 {
        None
    } else {
        Some(numeric_prefix(v))
    }
}

/// How a child's end is reported: success, or its status (1 when it has none).
pub open spec fn child_spec(success: bool, code: Option<i32>) -> Result<(), Error> {
    if success {
        Ok(())
    } else {
        Err(Error::ExecutionFailed(
            match code {
                Some(c) => c,
                None => 1,
            },
        ))
    }
}

/// The process exit status for an outcome, and whether a diagnostic is printed.
pub open spec fn exit_spec(outcome: Result<(), Error>) -> (i32, bool) {
    match outcome {
        Ok(()) => (0, false),
        Err(Error::ExecutionFailed(c)) => (c, false),
        Err(_) => (1, true),
    }
}

/// A tool that ends with a non-success status `c` makes the whole process end with `c`,
/// and nothing is printed beyond the tool's own output.
pub proof fn lemma_child_status_passes_through(c: i32)
    ensures
        exit_spec(child_spec(false, Some(c))) == (c, false),
{
}

/// Copies the optional project requirement text.
fn non_empty(o: &Option<String>) -> (r: Option<String>)
    ensures
        r == (match o {
            Some(s) => if s@.len() > 0 {
                Some(*s)
            } else {
                None
            },
            None => None,
        }),
{
    match o {
        Some(s) => if s.unicode_len() > 0 {
            Some(s.clone())
        } else {
            None
        },
        None => None,
    }
}

impl Executor {
    pub fn new() -> (r: Executor) {
        Executor
    }

    /// Interpreters to probe, in order, when none is given.
    pub fn interpreter_candidates(&self) -> (r: Vec<String>)
        ensures
            crate::text::views(r@) == seq!["php"@, "/usr/bin/php"@, "/usr/local/bin/php"@],
    {
        let r = vec![
            String::from_str("php"),
            String::from_str("/usr/bin/php"),
            String::from_str("/usr/local/bin/php"),
        ];
        proof {
            assert(crate::text::views(r@) =~= seq!["php"@, "/usr/bin/php"@, "/usr/local/bin/php"@]);
        }
        r
    }

    /// The project's interpreter requirement: the declared requirement if non-empty,
    /// else the platform setting if non-empty.
    pub fn pick_project_constraint(
        &self,
        require_php: &Option<String>,
        platform_php: &Option<String>,
    ) -> (r: Option<String>)
        ensures
            r == (match non_empty_spec(*require_php) {
                Some(s) => Some(s),
                None => non_empty_spec(*platform_php),
            }),
    {
        match non_empty(require_php) {
            Some(s) => Some(s),
            None => non_empty(platform_php),
        }
    }

    /// The version in an interpreter's output: leading digits and dots of the trimmed text.
    pub fn php_version_core(&self, output: &str) -> (r: Option<String>)
        ensures
            crate::resolver::opt_str_view(r) == core_version_spec(output@),
    {
        let v = trimmed(output);
        let n = v.unicode_len();
        if n == 0 {
            return None;
        }
        let mut i: usize = 0;
        proof {
            assert(v@.take(0) + v@.skip(0) =~= v@);
            assert(v@.take(0) =~= Seq::<char>::empty());
        }
        while i < n && is_version_character(v.get_char(i))
            invariant
                n == v@.len(),
                i <= n,
                numeric_prefix(v@) == v@.take(i as int) + numeric_prefix(v@.skip(i as int)),
            decreases n - i,
        {
            proof {
                let rest = v@.skip(i as int);
                assert(rest[0] == v@[i as int]);
                assert(rest.skip(1) =~= v@.skip(i + 1));
                assert(v@.take(i + 1) =~= v@.take(i as int) + seq![v@[i as int]]);
                assert(v@.take(i as int) + numeric_prefix(rest) =~= v@.take(i + 1) + numeric_prefix(
                    v@.skip(i + 1),
                ));
            }
            i = i + 1;
        }
        proof {
            if i < n {
                assert(v@.skip(i as int)[0] == v@[i as int]);
            }
            assert(numeric_prefix(v@.skip(i as int)) =~= Seq::<char>::empty());
            assert(numeric_prefix(v@) =~= v@.take(i as int));
        }
        if i == 0 {
            None
        } else {
            let core = v.substring_char(0, i);
            proof {
                assert(core@ =~= v@.take(i as int));
            }
            Some(String::from_str(core))
        }
    }

    /// Whether the interpreter version satisfies the project requirement.
    pub fn php_version_matches_constraint(version: &str, constraint: &str) -> (r: bool)
        ensures
            r == php_matches_spec(version@, constraint@),
    {
        let c = trimmed(constraint);
        if c.unicode_len() == 0 {
            return true;
        }
        if !crate::versions::parses_as_version(version) {
            return false;
        }
        if crate::versions::parses_as_version(c) {
            return !crate::versions::version_above(c, version);
        }
        crate::versions::range_accepts(c, version)
    }

    /// How the end of a launched tool is reported.
    pub fn child_outcome(&self, success: bool, code: Option<i32>) -> (r: Result<(), Error>)
        ensures
            r == child_spec(success, code),
    {
        if success {
            Ok(())
        } else {
            let c = match code {
                Some(c) => c,
                None => 1,
            };
            Err(Error::ExecutionFailed(c))
        }
    }
}

pub open spec fn non_empty_spec(o: Option<String>) -> Option<String> {
    match o {
        Some(s) => if s@.len() > 0 {
            Some(s)
        } else {
            None
        },
        None => None,
    }
}

fn is_version_character(ch: char) -> (r: bool)
    ensures
        r == is_version_char(ch),
{
    ('0' <= ch && ch <= '9') || ch == '.'
}

/// The process exit status for an outcome, and whether a diagnostic is to be printed:
/// a tool's own non-zero status passes through silently.
pub fn exit_status(outcome: &Result<(), Error>) -> (r: (i32, bool))
    ensures
        r == exit_spec(*outcome),
{
    match outcome {
        Ok(()) => (0, false),
        Err(Error::ExecutionFailed(c)) => (*c, false),
        Err(_) => (1, true),
    }
}

} // verus!
