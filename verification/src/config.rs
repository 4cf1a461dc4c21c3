//! The declarative configuration the orchestration commands run
//! from: systems with their bus uris, and actors with their dev
//! and test process descriptors. Reading the file and parsing its
//! text happen outside the library; the shapes and the validation
//! rules live here.
use vstd::prelude::*;

verus! {

/// A whole configuration: the declared systems and actors.
pub struct Config {
    /// The named systems, each with its bus uri.
    pub system: Vec<System>,
    /// The declared actors.
    pub actor: Vec<Actor>,
}

/// One named system and the bus uri its actors connect to.
pub struct System {
    pub name: String,
    pub nats_uri: String,
}

/// One declared actor, with its optional dev and test process
/// descriptors.
pub struct Actor {
    pub name: String,
    pub dev: Option<ActorDev>,
    pub test: Option<ActorTest>,
}

/// How to run an actor while developing: the crate path, the
/// binary, the environment, and the directories to watch.
pub struct ActorDev {
    pub path: String,
    pub bin: String,
    pub env: Vec<String>,
    pub watch: Vec<String>,
}

/// How to run an actor under test: the binary and the
/// environment.
pub struct ActorTest {
    pub bin: String,
    pub env: Vec<String>,
}

/// What is wrong with an actor entry, checked in this order: the
/// section must be present, then its path, then its binary must
/// be non-empty.
#[derive(Debug)]
pub enum ConfigProblem {
    MissingDev,
    EmptyDevPath,
    EmptyDevBin,
    MissingTest,
    EmptyTestBin,
}

/// The first problem with an actor's dev descriptor, if any.
pub open spec fn spec_dev_problem(a: Actor) -> Option<ConfigProblem> {
    match a.dev {
        None => Some(ConfigProblem::MissingDev),
        Some(dev) => if dev.path@.len() == 0 {
            Some(ConfigProblem::EmptyDevPath)
        } else if dev.bin@.len() == 0 {
            Some(ConfigProblem::EmptyDevBin)
        } else {
            None
        },
    }
}

/// The first problem with an actor's test descriptor, if any.
pub open spec fn spec_test_problem(a: Actor) -> Option<ConfigProblem> {
    match a.test {
        None => Some(ConfigProblem::MissingTest),
        Some(test) => if test.bin@.len() == 0 {
            Some(ConfigProblem::EmptyTestBin)
        } else {
            None
        },
    }
}

/// Checks that every actor carries a complete dev descriptor:
/// the problem of the first offending actor, or nothing.
pub fn validate_actors_dev(actors: &Vec<Actor>) -> (r: Result<(), ConfigProblem>)
    ensures
        match r {
            Ok(()) => forall|i: int|
                0 <= i < actors@.len() ==> spec_dev_problem(#[trigger] actors@[i]) is None,
            Err(p) => exists|i: int|
                0 <= i < actors@.len() && spec_dev_problem(#[trigger] actors@[i]) == Some(p)
                    && forall|k: int| 0 <= k < i ==> spec_dev_problem(#[trigger] actors@[k]) is None,
        },
{
    let mut i: usize = 0;
    while i < actors.len()
        invariant
            i <= actors@.len(),
            forall|k: int| 0 <= k < i ==> spec_dev_problem(#[trigger] actors@[k]) is None,
        decreases actors@.len() - i,
    {
        match &actors[i].dev {
            None => {
                return Err(ConfigProblem::MissingDev);
            },
            Some(dev) => {
                if dev.path.as_str().unicode_len() == 0 {
                    return Err(ConfigProblem::EmptyDevPath);
                }
                if dev.bin.as_str().unicode_len() == 0 {
                    return Err(ConfigProblem::EmptyDevBin);
                }
            },
        }
        i += 1;
    }
    Ok(())
}

/// Checks that every actor carries a complete test descriptor:
/// the problem of the first offending actor, or nothing.
pub fn validate_actors_test(actors: &Vec<Actor>) -> (r: Result<(), ConfigProblem>)
    ensures
        match r {
            Ok(()) => forall|i: int|
                0 <= i < actors@.len() ==> spec_test_problem(#[trigger] actors@[i]) is None,
            Err(p) => exists|i: int|
                0 <= i < actors@.len() && spec_test_problem(#[trigger] actors@[i]) == Some(p)
                    && forall|k: int|
                    0 <= k < i ==> spec_test_problem(#[trigger] actors@[k]) is None,
        },
{
    let mut i: usize = 0;
    while i < actors.len()
        invariant
            i <= actors@.len(),
            forall|k: int| 0 <= k < i ==> spec_test_problem(#[trigger] actors@[k]) is None,
        decreases actors@.len() - i,
    {
        match &actors[i].test {
            None => {
                return Err(ConfigProblem::MissingTest);
            },
            Some(test) => {
                if test.bin.as_str().unicode_len() == 0 {
                    return Err(ConfigProblem::EmptyTestBin);
                }
            },
        }
        i += 1;
    }
    Ok(())
}

impl Config {
    /// Looks a system up by name: the index of the first system
    /// carrying it, or nothing.
    pub fn find_system(&self, name: &String) -> (r: Option<usize>)
        ensures
            match r {
                Some(i) => i < self.system@.len() && self.system@[i as int].name@ == name@
                    && forall|k: int| 0 <= k < i ==> self.system@[k].name@ != name@,
                None => forall|k: int| 0 <= k < self.system@.len() ==> self.system@[k].name@ != name@,
            },
    {
        let mut i: usize = 0;
        while i < self.system.len()
            invariant
                i <= self.system@.len(),
                forall|k: int| 0 <= k < i ==> self.system@[k].name@ != name@,
            decreases self.system@.len() - i,
        {
            if self.system[i].name.eq(name) {
                return Some(i);
            }
            i += 1;
        }
        None
    }
}

} // verus!

verus! {

/// The position of the first `=` in a string, if any.
pub open spec fn spec_first_eq(s: Seq<char>) -> Option<int>
    decreases s.len(),
{
    if s.len() == 0 {
        None
    } else if s[0] == '=' {
        Some(0)
    } else {
        match spec_first_eq(s.drop_first()) {
            Some(i) => Some(i + 1),
            None => None,
        }
    }
}

/// An index holding `=`, with none before it, is the first `=`.
proof fn lemma_first_eq_is(s: Seq<char>, i: int)
    requires
        0 <= i < s.len(),
        s[i] == '=',
        forall|k: int| 0 <= k < i ==> s[k] != '=',
    ensures
        spec_first_eq(s) == Some(i),
    decreases s.len(),
{
    if i > 0 {
        assert(s.drop_first()[i - 1] == s[i]);
        assert(forall|k: int| 0 <= k < i - 1 ==> s.drop_first()[k] == s[k + 1]);
        lemma_first_eq_is(s.drop_first(), i - 1);
    }
}

/// A string without `=` has no first `=`.
proof fn lemma_first_eq_none(s: Seq<char>)
    requires
        forall|k: int| 0 <= k < s.len() ==> s[k] != '=',
    ensures
        spec_first_eq(s) is None,
    decreases s.len(),
{
    if s.len() > 0 {
        assert(forall|k: int| 0 <= k < s.len() - 1 ==> s.drop_first()[k] == s[k + 1]);
        lemma_first_eq_none(s.drop_first());
    }
}

/// How one `KEY=VALUE` entry of an actor's environment list is
/// read: the key is everything before the first `=`, the value
/// everything between the first and the second `=` (or the end).
/// An entry without any `=` is invalid and skipped.
pub open spec fn spec_env_pair(s: Seq<char>) -> Option<(Seq<char>, Seq<char>)> {
    match spec_first_eq(s) {
        None => None,
        Some(i) => {
            let rest = s.skip(i + 1);
            let value = match spec_first_eq(rest) {
                Some(j) => rest.take(j),
                None => rest,
            };
            Some((s.take(i), value))
        },
    }
}

/// The position of the first `=` at or after `from`, if any.
fn find_eq(s: &str, from: usize) -> (r: Option<usize>)
    requires
        from <= s@.len(),
    ensures
        match r {
            Some(i) => from <= i < s@.len() && s@[i as int] == '=' && forall|k: int|
                from <= k < i ==> s@[k] != '=',
            None => forall|k: int| from <= k < s@.len() ==> s@[k] != '=',
        },
{
    let n = s.unicode_len();
    let mut i: usize = from;
    while i < n
        invariant
            from <= i <= n,
            n == s@.len(),
            forall|k: int| from <= k < i ==> s@[k] != '=',
        decreases n - i,
    {
        if s.get_char(i) == '=' {
            return Some(i);
        }
        i += 1;
    }
    None
}

/// Splits one `KEY=VALUE` entry of an environment list, or reports
/// it invalid when it carries no `=`.
pub fn parse_env_pair(s: &String) -> (r: Option<(String, String)>)
    ensures
        match r {
            Some((key, value)) => spec_env_pair(s@) == Some((key@, value@)),
            None => spec_env_pair(s@) is None,
        },
{
    let st = s.as_str();
    let n = st.unicode_len();
    match find_eq(st, 0) {
        None => {
            proof {
                lemma_first_eq_none(s@);
            }
            None
        },
        Some(i) => {
            proof {
                lemma_first_eq_is(s@, i as int);
            }
            let key = st.substring_char(0, i).to_owned();
            let value = match find_eq(st, i + 1) {
                Some(j) => {
                    proof {
                        let rest = s@.skip(i + 1);
                        assert(forall|k: int|
                            0 <= k < rest.len() ==> rest[k] == s@[k + i + 1]);
                        lemma_first_eq_is(rest, j - (i + 1));
                        assert(rest.take(j - (i + 1)) =~= s@.subrange(i + 1, j as int));
                    }
                    st.substring_char(i + 1, j).to_owned()
                },
                None => {
                    proof {
                        let rest = s@.skip(i + 1);
                        assert(forall|k: int|
                            0 <= k < rest.len() ==> rest[k] == s@[k + i + 1]);
                        lemma_first_eq_none(rest);
                        assert(rest =~= s@.subrange(i + 1, n as int));
                    }
                    st.substring_char(i + 1, n).to_owned()
                },
            };
            proof {
                assert(s@.take(i as int) =~= s@.subrange(0, i as int));
            }
            Some((key, value))
        },
    }
}

/// True when a system entry names a bus uri: a system with an
/// empty uri cannot be run.
pub fn system_has_uri(s: &System) -> (r: bool)
    ensures
        r == (s.nats_uri@.len() != 0),
{
    s.nats_uri.as_str().unicode_len() != 0
}

} // verus!
