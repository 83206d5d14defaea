use vstd::prelude::*;

verus! {

/// The first index `k >= i` with `p[k] == '}'`, or `p.len()` if there is
/// none.  Used to delimit a `%{name}` placeholder.
pub open spec fn close_index(p: Seq<char>, i: int) -> int
    decreases p.len() - i,
{
    if i < 0 || i >= p.len() {
        p.len() as int
    } else if p[i] == '}' {
        i
    } else {
        close_index(p, i + 1)
    }
}

/// `close_index` lands on the first closing brace at or after `i`, or on
/// the pattern's end.
proof fn lemma_close_index_bounds(p: Seq<char>, i: int)
    requires
        0 <= i <= p.len(),
    ensures
        i <= close_index(p, i) <= p.len(),
        close_index(p, i) < p.len() ==> p[close_index(p, i)] == '}',
        forall|k: int| i <= k < close_index(p, i) ==> p[k] != '}',
    decreases p.len() - i,
{
    if i < p.len() && p[i] != '}' {
        lemma_close_index_bounds(p, i + 1);
    }
}

/// True if a placeholder opens at index `i` of `p`, that is, `p[i..]` starts
/// with `%{`.
pub open spec fn opens_placeholder(p: Seq<char>, i: int) -> bool {
    &&& 0 <= i < p.len()
    &&& p[i] == '%'
    &&& i + 1 < p.len()
    &&& p[i + 1] == '{'
}

/// The value bound to `name` in an argument list, searching front to back.
pub open spec fn lookup_arg(args: Seq<(Seq<char>, Seq<char>)>, name: Seq<char>) -> Option<
    Seq<char>,
>
    decreases args.len(),
{
    if args.len() == 0 {
        None
    } else if args[0].0 == name {
        Some(args[0].1)
    } else {
        lookup_arg(args.drop_first(), name)
    }
}

/// The interpolation of the pattern suffix `p[i..]` with `args`: literal
/// characters are kept, each `%{name}` placeholder is replaced by the value
/// bound to `name`, and an unclosed `%{` is kept literally.  `Err(name)`
/// reports the first placeholder whose name is not bound.
pub open spec fn interp_from(
    p: Seq<char>,
    args: Seq<(Seq<char>, Seq<char>)>,
    i: int,
) -> Result<Seq<char>, Seq<char>>
    decreases p.len() - i
        when 0 <= i
        via interp_from_decreases
{
    if i >= p.len() {
        Ok(Seq::empty())
    } else if opens_placeholder(p, i) {
        if close_index(p, i + 2) >= p.len() {
            Ok(p.subrange(i, p.len() as int))
        } else {
            let j = close_index(p, i + 2);
            let name = p.subrange(i + 2, j);
            match lookup_arg(args, name) {
                None => Err(name),
                Some(v) => match interp_from(p, args, j + 1) {
                    Ok(rest) => Ok(v + rest),
                    Err(e) => Err(e),
                },
            }
        }
    } else {
        match interp_from(p, args, i + 1) {
            Ok(rest) => Ok(seq![p[i]] + rest),
            Err(e) => Err(e),
        }
    }
}

#[via_fn]
proof fn interp_from_decreases(p: Seq<char>, args: Seq<(Seq<char>, Seq<char>)>, i: int) {
    if 0 <= i < p.len() && opens_placeholder(p, i) {
        lemma_close_index_bounds(p, i + 2);
    }
}

/// The interpolation of the whole pattern `p` with `args`.
pub open spec fn spec_interpolate(
    p: Seq<char>,
    args: Seq<(Seq<char>, Seq<char>)>,
) -> Result<Seq<char>, Seq<char>> {
    interp_from(p, args, 0)
}

/// The (name, value) views of a rendered argument vector.
pub open spec fn pairs_view(s: Seq<(String, String)>) -> Seq<(Seq<char>, Seq<char>)> {
    s.map_values(|p: (String, String)| (p.0@, p.1@))
}

/// A run of literal characters contributes itself to the interpolation:
/// if no placeholder opens in `p[start..i]`, interpolating from `start`
/// prepends `p[start..i]` to the interpolation from `i`.
proof fn lemma_literal_run(p: Seq<char>, args: Seq<(Seq<char>, Seq<char>)>, start: int, i: int)
    requires
        0 <= start <= i <= p.len(),
        forall|k: int| start <= k < i ==> !opens_placeholder(p, k),
    ensures
        match interp_from(p, args, i) {
            Ok(rest) => interp_from(p, args, start) == Ok::<Seq<char>, Seq<char>>(
                p.subrange(start, i) + rest,
            ),
            Err(e) => interp_from(p, args, start) == Err::<Seq<char>, Seq<char>>(e),
        },
    decreases i - start,
{
    if start == i {
        match interp_from(p, args, i) {
            Ok(rest) => {
                assert(p.subrange(start, i) + rest =~= rest);
            },
            Err(_) => {},
        }
    } else {
        assert(!opens_placeholder(p, start));
        lemma_literal_run(p, args, start + 1, i);
        match interp_from(p, args, i) {
            Ok(rest) => {
                assert(interp_from(p, args, start + 1) == Ok::<Seq<char>, Seq<char>>(
                    p.subrange(start + 1, i) + rest,
                ));
                assert(p.subrange(start, i) + rest =~= seq![p[start]] + (p.subrange(start + 1, i)
                    + rest));
            },
            Err(_) => {},
        }
    }
}

/// Looks `name` up in `args`, front to back.
fn find_arg<'a>(args: &'a Vec<(String, String)>, name: &str) -> (r: Option<&'a String>)
    ensures
        match r {
            Some(v) => lookup_arg(pairs_view(args@), name@) == Some(v@),
            None => lookup_arg(pairs_view(args@), name@) is None,
        },
{
    let name_owned = name.to_owned();
    let n = args.len();
    for idx in 0..n
        invariant
            n == args.len(),
            name_owned@ == name@,
            forall|k: int| 0 <= k < idx ==> args@[k].0@ != name@,
    {
        if args[idx].0 == name_owned {
            proof {
                lemma_lookup_first(pairs_view(args@), name@, idx as int);
            }
            return Some(&args[idx].1);
        }
    }
    proof {
        lemma_lookup_none(pairs_view(args@), name@);
    }
    None
}

/// If the first binding of `name` in `args` is at index `idx`, `lookup_arg`
/// returns its value.
proof fn lemma_lookup_first(args: Seq<(Seq<char>, Seq<char>)>, name: Seq<char>, idx: int)
    requires
        0 <= idx < args.len(),
        args[idx].0 == name,
        forall|k: int| 0 <= k < idx ==> args[k].0 != name,
    ensures
        lookup_arg(args, name) == Some(args[idx].1),
    decreases idx,
{
    if idx > 0 {
        lemma_lookup_first(args.drop_first(), name, idx - 1);
    }
}

/// If no binding in `args` carries `name`, `lookup_arg` returns `None`.
proof fn lemma_lookup_none(args: Seq<(Seq<char>, Seq<char>)>, name: Seq<char>)
    requires
        forall|k: int| 0 <= k < args.len() ==> args[k].0 != name,
    ensures
        lookup_arg(args, name) is None,
    decreases args.len(),
{
    if args.len() > 0 {
        lemma_lookup_none(args.drop_first(), name);
    }
}

/// Replaces every `%{name}` placeholder of `pattern` by the value bound to
/// `name` in `args`; an unclosed `%{` stays literal.  Returns the name of
/// the first placeholder that `args` does not bind as the error.
pub fn interpolate(pattern: &str, args: &Vec<(String, String)>) -> (r: Result<String, String>)
    ensures
        match r {
            Ok(s) => spec_interpolate(pattern@, pairs_view(args@)) == Ok::<Seq<char>, Seq<char>>(
                s@,
            ),
            Err(e) => spec_interpolate(pattern@, pairs_view(args@)) == Err::<Seq<char>, Seq<char>>(
                e@,
            ),
        },
{
    let ghost p = pattern@;
    let ghost m = pairs_view(args@);
    let n = pattern.unicode_len();
    let mut out = String::new();
    let mut start: usize = 0;
    let mut i: usize = 0;
    while i < n
        invariant
            n == p.len(),
            p == pattern@,
            m == pairs_view(args@),
            0 <= start <= i <= n,
            forall|k: int| start <= k < i ==> !opens_placeholder(p, k),
            match interp_from(p, m, start as int) {
                Ok(rest) => interp_from(p, m, 0) == Ok::<Seq<char>, Seq<char>>(out@ + rest),
                Err(e) => interp_from(p, m, 0) == Err::<Seq<char>, Seq<char>>(e),
            },
        decreases n - i,
    {
        if pattern.get_char(i) == '%' && i + 1 < n && pattern.get_char(i + 1) == '{' {
            assert(opens_placeholder(p, i as int));
            // Find the closing brace of the placeholder.
            let mut j = i + 2;
            while j < n && pattern.get_char(j) != '}'
                invariant
                    n == p.len(),
                    p == pattern@,
                    i + 2 <= j <= n,
                    forall|k: int| i + 2 <= k < j ==> p[k] != '}',
                decreases n - j,
            {
                j += 1;
            }
            proof {
                lemma_close_index_bounds(p, i as int + 2);
                if j < n {
                    assert(p[j as int] == '}');
                    assert(close_index(p, i as int + 2) == j as int) by {
                        lemma_close_index_at(p, i as int + 2, j as int);
                    }
                } else {
                    assert(close_index(p, i as int + 2) == p.len()) by {
                        lemma_close_index_at_end(p, i as int + 2);
                    }
                }
            }
            if j >= n {
                // No closing brace anywhere after the `%{`: the rest of the
                // pattern is literal.
                proof {
                    lemma_literal_run(p, m, start as int, i as int);
                    assert(interp_from(p, m, i as int) == Ok::<Seq<char>, Seq<char>>(
                        p.subrange(i as int, n as int),
                    ));
                    assert(p.subrange(start as int, i as int) + p.subrange(i as int, n as int)
                        =~= p.subrange(start as int, n as int));
                }
                let tail = pattern.substring_char(start, n);
                out.append(tail);
                return Ok(out);
            }
            let name = pattern.substring_char(i + 2, j);
            match find_arg(args, name) {
                None => {
                    proof {
                        lemma_literal_run(p, m, start as int, i as int);
                    }
                    return Err(name.to_owned());
                },
                Some(v) => {
                    let ghost out0 = out@;
                    let lit = pattern.substring_char(start, i);
                    out.append(lit);
                    out.append(v.as_str());
                    proof {
                        lemma_literal_run(p, m, start as int, i as int);
                        let sub = p.subrange(start as int, i as int);
                        match interp_from(p, m, j as int + 1) {
                            Ok(rest) => {
                                assert(interp_from(p, m, i as int) == Ok::<Seq<char>, Seq<char>>(
                                    v@ + rest,
                                ));
                                assert(interp_from(p, m, start as int) == Ok::<
                                    Seq<char>,
                                    Seq<char>,
                                >(sub + (v@ + rest)));
                                assert(out0 + (sub + (v@ + rest)) =~= ((out0 + sub) + v@) + rest);
                                assert(out@ == (out0 + sub) + v@);
                            },
                            Err(e) => {
                                assert(interp_from(p, m, i as int) == Err::<Seq<char>, Seq<char>>(
                                    e,
                                ));
                            },
                        }
                    }
                    i = j + 1;
                    start = i;
                },
            }
        } else {
            assert(!opens_placeholder(p, i as int));
            i += 1;
        }
    }
    proof {
        lemma_literal_run(p, m, start as int, i as int);
        assert(interp_from(p, m, i as int) == Ok::<Seq<char>, Seq<char>>(Seq::<char>::empty()));
        assert(p.subrange(start as int, i as int) + Seq::<char>::empty() =~= p.subrange(
            start as int,
            i as int,
        ));
    }
    let tail = pattern.substring_char(start, n);
    out.append(tail);
    Ok(out)
}

/// `close_index` finds exactly the first closing brace.
proof fn lemma_close_index_at(p: Seq<char>, i: int, j: int)
    requires
        0 <= i <= j < p.len(),
        p[j] == '}',
        forall|k: int| i <= k < j ==> p[k] != '}',
    ensures
        close_index(p, i) == j,
    decreases j - i,
{
    if i < j {
        lemma_close_index_at(p, i + 1, j);
    }
}

/// With no closing brace from `i` on, `close_index` runs to the end.
proof fn lemma_close_index_at_end(p: Seq<char>, i: int)
    requires
        0 <= i <= p.len(),
        forall|k: int| i <= k < p.len() ==> p[k] != '}',
    ensures
        close_index(p, i) == p.len(),
    decreases p.len() - i,
{
    if i < p.len() {
        lemma_close_index_at_end(p, i + 1);
    }
}

} // verus!
