//! Command intake: a routed message subject of the shape
//! `srv.command.<service>.<method>` names the handler a command is
//! addressed to.

use vstd::prelude::*;
use vstd::string::*;
use crate::codec::expect_lit;

verus! {

/// Whether a character sequence is free of separator dots.
pub open spec fn no_dot(s: Seq<char>) -> bool {
    forall|i: int| 0 <= i < s.len() ==> s[i] != '.'
}

/// The shape of a routed command subject: the fixed `srv.command.`
/// prefix, then the service and the method, dot-separated, neither
/// holding a further dot.
pub open spec fn command_subject(service: Seq<char>, method: Seq<char>) -> Seq<char> {
    "srv.command."@ + service + seq!['.'] + method
}

/// The address a command subject resolves to: which service, which
/// method.
#[derive(Debug)]
pub struct CommandHandler {
    pub service: String,
    pub method: String,
}

/// The first dot at or after `from`, if any.
fn find_dot(s: &str, from: usize) -> (r: Option<usize>)
    requires
        from <= s@.len(),
    ensures
        r matches Some(d) ==> from <= d < s@.len() && s@[d as int] == '.' && forall|j: int|
            from <= j < d ==> s@[j] != '.',
        r is None ==> forall|j: int| from <= j < s@.len() ==> s@[j] != '.',
{
    let n = s.unicode_len();
    let mut d = from;
    let mut found = false;
    while d < n && !found
        invariant
            from <= d <= n,
            n == s@.len(),
            found ==> d < n && s@[d as int] == '.',
            forall|j: int| from <= j < d ==> s@[j] != '.',
        decreases n - d, (if found { 0int } else { 1int }),
    {
        if s.get_char(d) == '.' {
            found = true;
        } else {
            d += 1;
        }
    }
    if found {
        Some(d)
    } else {
        None
    }
}

/// Resolves a routed message subject, exactly on the subjects of the
/// shape [`command_subject`]: `Some` with the service and method for
/// those, `None` for every other input.
pub fn parse_command(input: &str) -> (r: Option<CommandHandler>)
    ensures
        r matches Some(h) ==> no_dot(h.service@) && no_dot(h.method@) && input@ == command_subject(
            h.service@,
            h.method@,
        ),
        r is None ==> forall|a: Seq<char>, b: Seq<char>|
            !(no_dot(a) && no_dot(b) && input@ == #[trigger] command_subject(a, b)),
{
    proof {
        reveal_strlit("srv.command.");
    }
    let n = input.unicode_len();
    match expect_lit(input, 0, "srv.command.") {
        None => {
            proof {
                assert forall|a: Seq<char>, b: Seq<char>|
                    !(no_dot(a) && no_dot(b) && input@ == #[trigger] command_subject(a, b)) by {
                    if input@ == command_subject(a, b) {
                        assert(input@.len() == 12 + a.len() + 1 + b.len());
                        assert(input@.subrange(0, 12) =~= "srv.command."@);
                    }
                }
            }
            None
        },
        Some(p) => {
            match find_dot(input, p) {
                None => {
                    proof {
                        assert forall|a: Seq<char>, b: Seq<char>|
                            !(no_dot(a) && no_dot(b) && input@ == #[trigger] command_subject(
                                a,
                                b,
                            )) by {
                            if input@ == command_subject(a, b) {
                                assert(input@[12 + a.len() as int] == '.');
                                assert((12 + a.len() as int) < input@.len());
                            }
                        }
                    }
                    None
                },
                Some(d) => {
                    match find_dot(input, d + 1) {
                        Some(k) => {
                            proof {
                                assert forall|a: Seq<char>, b: Seq<char>|
                                    !(no_dot(a) && no_dot(b) && input@ == #[trigger] command_subject(
                                        a,
                                        b,
                                    )) by {
                                    if no_dot(a) && no_dot(b) && input@ == command_subject(a, b) {
                                        assert(input@[12 + a.len() as int] == '.');
                                        if d < 12 + a.len() as int {
                                            assert(input@[d as int] == a[d - 12]);
                                        }
                                        if d > 12 + a.len() as int {
                                            assert(input@[12 + a.len() as int] != '.');
                                        }
                                        assert(d == 12 + a.len() as int);
                                        assert(input@[k as int] == b[k - d - 1]);
                                    }
                                }
                            }
                            None
                        },
                        None => {
                            let service = input.substring_char(p, d);
                            let method = input.substring_char(d + 1, n);
                            proof {
                                assert(input@ =~= input@.subrange(0, 12) + input@.subrange(
                                    12,
                                    d as int,
                                ) + seq![input@[d as int]] + input@.subrange(d + 1, n as int));
                                assert(seq![input@[d as int]] =~= seq!['.']);
                                assert(input@ == command_subject(service@, method@));
                            }
                            Some(
                                CommandHandler {
                                    service: String::from_str(service),
                                    method: String::from_str(method),
                                },
                            )
                        },
                    }
                },
            }
        },
    }
}

} // verus!
