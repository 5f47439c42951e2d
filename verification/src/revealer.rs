use vstd::prelude::*;
use vstd::string::*;

use crate::error::FsError;

verus! {

/// The closed set of platforms a build targets. The variant is fixed once at
/// build time by the surrounding binary; it is never a runtime switch.
#[derive(Clone, Copy, Debug, PartialEq, Eq, Structural)]
pub enum Platform {
    MacOs,
    Windows,
    Linux,
}

/// A planned process launch: the program to spawn and its arguments, in
/// order. The launch is fire-and-forget; no handle to the child is kept.
pub struct RevealCommand {
    pub program: String,
    pub args: Vec<String>,
}

impl RevealCommand {
    /// The launch as plain data: the program's characters and each
    /// argument's characters, in order.
    pub open spec fn plan_view(&self) -> (Seq<char>, Seq<Seq<char>>) {
        (self.program@, self.args.deep_view())
    }
}

/// `p` with every trailing separator removed.
pub open spec fn strip_trailing_separators(p: Seq<char>) -> Seq<char>
    decreases p.len(),
{
    if p.len() > 0 && p.last() == '/' {
        strip_trailing_separators(p.drop_last())
    } else {
        p
    }
}

/// The index of the last separator in `p`, or -1 when `p` has none.
pub open spec fn last_separator(p: Seq<char>) -> int
    decreases p.len(),
{
    if p.len() == 0 {
        -1
    } else if p.last() == '/' {
        p.len() - 1
    } else {
        last_separator(p.drop_last())
    }
}

/// The parent directory of a path, as a path string. Trailing separators
/// and runs of separators are treated as one; `.` and `..` are ordinary
/// names. The empty path and the root (separators alone) have no parent; a
/// single relative name's parent is the empty path; a name directly under
/// the root has the root itself as parent; otherwise the parent is the path
/// up to (and excluding) the last separator.
pub open spec fn parent_spec(p: Seq<char>) -> Option<Seq<char>> {
    let trimmed = strip_trailing_separators(p);
    if trimmed.len() == 0 {
        None
    } else if last_separator(trimmed) == -1 {
        Some(Seq::empty())
    } else {
        let prefix = strip_trailing_separators(trimmed.subrange(0, last_separator(trimmed)));
        if prefix.len() == 0 {
            Some(seq!['/'])
        } else {
            Some(prefix)
        }
    }
}

/// Where a scan from the right stopped at the first non-separator, the
/// stripped path is exactly the prefix up to that point.
proof fn lemma_strip_is_prefix(p: Seq<char>, k: int)
    requires
        0 <= k <= p.len(),
        forall|j: int| k <= j < p.len() ==> p[j] == '/',
        k > 0 ==> p[k - 1] != '/',
    ensures
        strip_trailing_separators(p) == p.subrange(0, k),
    decreases p.len(),
{
    if p.len() == 0 {
        assert(p.subrange(0, 0) =~= p);
    } else if p.last() == '/' {
        assert(k < p.len());
        let q = p.drop_last();
        assert(forall|j: int| k <= j < q.len() ==> q[j] == p[j] && p[j] == '/');
        assert(k > 0 ==> q[k - 1] == p[k - 1]);
        lemma_strip_is_prefix(q, k);
        assert(q.subrange(0, k) =~= p.subrange(0, k));
    } else {
        assert(k == p.len());
        assert(p.subrange(0, k) =~= p);
    }
}

/// Where a scan from the right stopped at the first separator, that is
/// exactly where the last separator stands (or there is none).
proof fn lemma_last_separator_at(p: Seq<char>, k: int)
    requires
        0 <= k <= p.len(),
        forall|j: int| k <= j < p.len() ==> p[j] != '/',
        k > 0 ==> p[k - 1] == '/',
    ensures
        k == 0 ==> last_separator(p) == -1,
        k > 0 ==> last_separator(p) == k - 1,
    decreases p.len(),
{
    if p.len() == 0 {
    } else if p.last() == '/' {
        assert(k == p.len());
    } else {
        assert(k < p.len());
        let q = p.drop_last();
        assert(forall|j: int| k <= j < q.len() ==> q[j] == p[j] && p[j] != '/');
        assert(k > 0 ==> q[k - 1] == p[k - 1]);
        lemma_last_separator_at(q, k);
    }
}

/// The stripped path is empty exactly when the path is separators alone.
proof fn lemma_strip_empty_iff_all_separators(p: Seq<char>)
    ensures
        strip_trailing_separators(p).len() == 0 <==> (forall|j: int|
            0 <= j < p.len() ==> p[j] == '/'),
    decreases p.len(),
{
    if p.len() == 0 {
    } else if p.last() == '/' {
        let q = p.drop_last();
        lemma_strip_empty_iff_all_separators(q);
        assert(forall|j: int| 0 <= j < q.len() ==> q[j] == p[j]);
        if forall|j: int| 0 <= j < q.len() ==> q[j] == '/' {
            assert(forall|j: int| 0 <= j < p.len() ==> p[j] == '/');
        } else {
            let w = choose|j: int| 0 <= j < q.len() && q[j] != '/';
            assert(p[w] != '/');
        }
    } else {
        assert(p[p.len() - 1] != '/');
    }
}

/// Computes the parent directory described by `parent_spec`: `None` for the
/// empty path and for the root, otherwise the path up to the last separator
/// (the empty string for a single relative name, the root for a name
/// directly under it).
pub fn parent_of(path: &str) -> (r: Option<String>)
    ensures
        r.deep_view() == parent_spec(path@),
{
    let len = path.unicode_len();
    let mut end: usize = len;
    while end > 0 && path.get_char(end - 1) == '/'
        invariant
            end <= len,
            path@.len() == len as nat,
            forall|j: int| end <= j < len ==> path@[j] == '/',
        decreases end,
    {
        end = end - 1;
    }
    proof {
        lemma_strip_is_prefix(path@, end as int);
    }
    let ghost trimmed = strip_trailing_separators(path@);
    if end == 0 {
        proof {
            assert(path@.subrange(0, 0) =~= Seq::<char>::empty());
        }
        None
    } else {
        let mut pos: usize = end;
        while pos > 0 && path.get_char(pos - 1) != '/'
            invariant
                pos <= end,
                end <= len,
                path@.len() == len as nat,
                forall|j: int| pos <= j < end ==> path@[j] != '/',
            decreases pos,
        {
            pos = pos - 1;
        }
        proof {
            assert(trimmed == path@.subrange(0, end as int));
            assert(trimmed.len() == end as int);
            assert(forall|j: int| pos <= j < trimmed.len() ==> trimmed[j] == path@[j]);
            assert(pos > 0 ==> trimmed[pos - 1] == path@[pos - 1]);
            lemma_last_separator_at(trimmed, pos as int);
        }
        if pos == 0 {
            let r = String::new();
            proof {
                assert(r@ =~= Seq::<char>::empty());
            }
            Some(r)
        } else {
            let ghost head = trimmed.subrange(0, pos - 1);
            proof {
                assert(head =~= path@.subrange(0, pos - 1));
            }
            let mut pend: usize = pos - 1;
            while pend > 0 && path.get_char(pend - 1) == '/'
                invariant
                    pend <= pos - 1,
                    pos <= len,
                    pos >= 1,
                    path@.len() == len as nat,
                    forall|j: int| pend <= j < pos - 1 ==> path@[j] == '/',
                decreases pend,
            {
                pend = pend - 1;
            }
            proof {
                assert(forall|j: int| pend <= j < head.len() ==> head[j] == path@[j]);
                assert(pend > 0 ==> head[pend - 1] == path@[pend - 1]);
                lemma_strip_is_prefix(head, pend as int);
                assert(head.subrange(0, pend as int) =~= path@.subrange(0, pend as int));
            }
            if pend == 0 {
                let r = "/".to_owned();
                proof {
                    reveal_strlit("/");
                    assert(r@ =~= seq!['/']);
                }
                Some(r)
            } else {
                let r = path.substring_char(0, pend).to_owned();
                Some(r)
            }
        }
    }
}

/// The action each platform's strategy plans for a reveal request: macOS
/// spawns `open -R <path>`; Windows spawns `explorer` with the select flag
/// concatenated directly with the path (no space between them); the Linux
/// fallback has no native reveal and instead opens the path's parent
/// directory with `xdg-open`, or plans nothing at all when the path has no
/// parent component.
pub open spec fn reveal_plan_spec(platform: Platform, path: Seq<char>) -> Option<
    (Seq<char>, Seq<Seq<char>>),
> {
    match platform {
        Platform::MacOs => Some(("open"@, seq!["-R"@, path])),
        Platform::Windows => Some(("explorer"@, seq!["/select,"@ + path])),
        Platform::Linux => match parent_spec(path) {
            Some(parent) => Some(("xdg-open"@, seq![parent])),
            None => None,
        },
    }
}

/// Plans the reveal of `path` on `platform`: the process launch that
/// `reveal_plan_spec` prescribes, or `None` when the strategy degrades to a
/// silent no-op. The path is passed through literally; its validity is
/// delegated entirely to the spawned tool.
pub fn reveal_plan(platform: Platform, path: &str) -> (r: Option<RevealCommand>)
    ensures
        (match r {
            Some(cmd) => reveal_plan_spec(platform, path@) == Some(cmd.plan_view()),
            None => reveal_plan_spec(platform, path@) is None,
        }),
{
    match platform {
        Platform::MacOs => {
            let mut args: Vec<String> = Vec::new();
            args.push("-R".to_owned());
            args.push(path.to_owned());
            let cmd = RevealCommand { program: "open".to_owned(), args };
            proof {
                assert(cmd.args.deep_view() =~= seq!["-R"@, path@]);
            }
            Some(cmd)
        },
        Platform::Windows => {
            let mut args: Vec<String> = Vec::new();
            args.push("/select,".to_owned().concat(path));
            let cmd = RevealCommand { program: "explorer".to_owned(), args };
            proof {
                assert(cmd.args.deep_view() =~= seq!["/select,"@ + path@]);
            }
            Some(cmd)
        },
        Platform::Linux => match parent_of(path) {
            Some(parent) => {
                let ghost parent_view = parent@;
                let mut args: Vec<String> = Vec::new();
                args.push(parent);
                let cmd = RevealCommand { program: "xdg-open".to_owned(), args };
                proof {
                    assert(cmd.args.deep_view() =~= seq![parent_view]);
                }
                Some(cmd)
            },
            None => None,
        },
    }
}

/// Interprets the outcome of the planned launch: `None` when nothing was
/// planned (the no-op fallback), otherwise the result of spawning the
/// process. Success means the process was launched — fire-and-forget, never
/// awaited — so the only failure is `SpawnError`, carrying the
/// operating-system message verbatim.
pub fn finish_reveal(spawn_outcome: Option<Result<(), String>>) -> (r: Result<(), FsError>)
    ensures
        r is Err <==> (spawn_outcome matches Some(Err(_))),
        (match spawn_outcome {
            Some(Err(m)) => r is Err && r->Err_0 == FsError::SpawnError(m),
            _ => r is Ok,
        }),
{
    match spawn_outcome {
        None => Ok(()),
        Some(Ok(())) => Ok(()),
        Some(Err(m)) => Err(FsError::SpawnError(m)),
    }
}

/// The paths without a parent component are exactly the empty path and the
/// paths written with separators alone (the root, however spelled).
pub proof fn lemma_no_parent_iff_all_separators(p: Seq<char>)
    ensures
        parent_spec(p) is None <==> (forall|j: int| 0 <= j < p.len() ==> p[j] == '/'),
{
    lemma_strip_empty_iff_all_separators(p);
}

/// The platforms with a native reveal (macOS and Windows) always plan a
/// launch, whatever the path: only a failure to launch the tool itself can
/// fail the command there.
pub proof fn lemma_native_reveal_always_launches(platform: Platform, path: Seq<char>)
    requires
        platform != Platform::Linux,
    ensures
        reveal_plan_spec(platform, path) is Some,
{
}

/// On the Linux fallback a path with no parent component plans no launch at
/// all: the command then reports success as a silent no-op.
pub proof fn lemma_linux_no_parent_plans_nothing(path: Seq<char>)
    requires
        parent_spec(path) is None,
    ensures
        reveal_plan_spec(Platform::Linux, path) is None,
{
}

/// Revealing retains no state between calls: the planned action is a
/// function of the platform and the path alone, so a repeated request with
/// the same path plans exactly the same action as the first and cannot
/// newly fail.
pub proof fn lemma_reveal_plan_stateless(
    platform: Platform,
    path: Seq<char>,
    first: Option<(Seq<char>, Seq<Seq<char>>)>,
    second: Option<(Seq<char>, Seq<Seq<char>>)>,
)
    requires
        first == reveal_plan_spec(platform, path),
        second == reveal_plan_spec(platform, path),
    ensures
        first == second,
{
}

} // verus!
