//! URL template resolution: substitutes the recognized placeholders `{name}`
//! and `{version}` and rejects any other placeholder token.
use vstd::prelude::*;

verus! {

use crate::strings::{first_index_of, find_char_from};
use crate::strings::str_eq;
use vstd::string::{StrSliceExecFns, StringExecFns};

/// Failure of URL template resolution.
#[derive(Clone, Debug, PartialEq, Eq)]
pub enum TemplateError {
    /// The template held a placeholder outside the recognized set; carries
    /// the offending token text.
    UnsupportedVariable(String),
}

/// Resolution of a URL template: every `{name}` placeholder becomes `name`,
/// every `{version}` placeholder becomes `version`, all other characters are
/// kept; any other placeholder token is the error. A `{` without a closing
/// `}` is reported as the token reaching to the end of the template.
pub open spec fn resolve_spec(t: Seq<char>, name: Seq<char>, version: Seq<char>) -> Result<
    Seq<char>,
    Seq<char>,
>
    decreases t.len(),
{
    if t.len() == 0 {
        Ok(Seq::empty())
    } else if t[0] == '{' {
        let inner = t.skip(1);
        match first_index_of(inner, '}') {
            None => Err(inner),
            Some(j) => if 0 <= j < inner.len() {
                let token = inner.take(j);
                if token == "name"@ || token == "version"@ {
                    let replacement = if token == "name"@ {
                        name
                    } else {
                        version
                    };
                    combine(replacement, resolve_spec(inner.skip(j + 1), name, version))
                } else {
                    Err(token)
                }
            } else {
                // a found index always lies inside `inner`; this arm never arises
                Err(inner)
            },
        }
    } else {
        combine(seq![t[0]], resolve_spec(t.skip(1), name, version))
    }
}

/// Prepend `prefix` to the payload of a successful resolution.
pub open spec fn combine(prefix: Seq<char>, r: Result<Seq<char>, Seq<char>>) -> Result<
    Seq<char>,
    Seq<char>,
> {
    match r {
        Ok(rest) => Ok(prefix + rest),
        Err(e) => Err(e),
    }
}

proof fn lemma_combine_assoc(a: Seq<char>, b: Seq<char>, r: Result<Seq<char>, Seq<char>>)
    ensures
        combine(a, combine(b, r)) == combine(a + b, r),
{
    match r {
        Ok(rest) => {
            assert(a + (b + rest) =~= (a + b) + rest);
        },
        Err(e) => {
        },
    }
}

/// Resolver of templated URLs.
pub struct UrlTokenizer {}

impl UrlTokenizer {
    /// Substitute the recognized placeholders into `template`.
    pub fn finalize(template: &str, name: &str, version: &str) -> (r: Result<
        String,
        TemplateError,
    >)
        ensures
            match r {
                Ok(s) => resolve_spec(template@, name@, version@) == Ok::<Seq<char>, Seq<char>>(
                    s@,
                ),
                Err(TemplateError::UnsupportedVariable(token)) => resolve_spec(
                    template@,
                    name@,
                    version@,
                ) == Err::<Seq<char>, Seq<char>>(token@),
            },
    {
        let n: usize = template.unicode_len();
        let mut out: String = String::new();
        let mut i: usize = 0;
        proof {
            assert(template@.skip(0) =~= template@);
            let r0 = resolve_spec(template@, name@, version@);
            if r0 is Ok {
                assert(Seq::<char>::empty() + r0->Ok_0 =~= r0->Ok_0);
            }
        }
        while i < n
            invariant
                i <= n,
                n == template@.len(),
                resolve_spec(template@, name@, version@) == combine(
                    out@,
                    resolve_spec(template@.skip(i as int), name@, version@),
                ),
            decreases n - i,
        {
            let ghost rem = template@.skip(i as int);
            proof {
                assert(rem[0] == template@[i as int]);
                assert(rem.skip(1) =~= template@.skip(i + 1));
            }
            let c = template.get_char(i);
            if c == '{' {
                match find_char_from(template, i + 1, '}') {
                    None => {
                        let token = template.substring_char(i + 1, n);
                        proof {
                            assert(token@ =~= rem.skip(1));
                        }
                        return Err(TemplateError::UnsupportedVariable(token.to_owned()));
                    },
                    Some(j) => {
                        let token = template.substring_char(i + 1, j);
                        let ghost jr: int = j - (i + 1);
                        proof {
                            assert(first_index_of(rem.skip(1), '}') == Some(jr));
                            assert(token@ =~= rem.skip(1).take(jr));
                        }
                        let is_name = str_eq(token, "name");
                        let is_version = str_eq(token, "version");
                        if is_name || is_version {
                            let ghost prev = out@;
                            let ghost replacement = if is_name {
                                name@
                            } else {
                                version@
                            };
                            if is_name {
                                out.append(name);
                            } else {
                                out.append(version);
                            }
                            proof {
                                assert(rem.skip(1).skip(jr + 1) =~= template@.skip(j + 1));
                                assert(resolve_spec(rem, name@, version@) == combine(
                                    replacement,
                                    resolve_spec(template@.skip(j + 1), name@, version@),
                                ));
                                lemma_combine_assoc(
                                    prev,
                                    replacement,
                                    resolve_spec(template@.skip(j + 1), name@, version@),
                                );
                            }
                            i = j + 1;
                        } else {
                            proof {
                                assert(resolve_spec(rem, name@, version@) == Err::<
                                    Seq<char>,
                                    Seq<char>,
                                >(token@));
                            }
                            return Err(TemplateError::UnsupportedVariable(token.to_owned()));
                        }
                    },
                }
            } else {
                let piece = template.substring_char(i, i + 1);
                let ghost prev = out@;
                out.append(piece);
                proof {
                    assert(piece@ =~= seq![rem[0]]);
                    assert(resolve_spec(rem, name@, version@) == combine(
                        seq![rem[0]],
                        resolve_spec(template@.skip(i + 1), name@, version@),
                    ));
                    lemma_combine_assoc(
                        prev,
                        seq![rem[0]],
                        resolve_spec(template@.skip(i + 1), name@, version@),
                    );
                }
                i = i + 1;
            }
        }
        proof {
            assert(template@.skip(n as int) =~= Seq::<char>::empty());
            assert(out@ + Seq::<char>::empty() =~= out@);
        }
        Ok(out)
    }
}

} // verus!
