//! Matching of concrete resource URIs against URI templates such as
//! `user://{id}`.

use vstd::prelude::*;
use crate::text::chars_of;

verus! {

/// How many template characters a variable occupies when the template
/// starts with `{`: everything up to and including the first `}`, or the
/// rest of the template when no `}` follows.
pub open spec fn variable_len(t: Seq<char>) -> nat
    decreases t.len(),
{
    if t.len() == 0 {
        0
    } else if t[0] == '}' {
        1
    } else {
        1 + variable_len(t.drop_first())
    }
}

/// Length of the longest prefix of `u` that holds no `/`.
pub open spec fn segment_len(u: Seq<char>) -> nat
    decreases u.len(),
{
    if u.len() == 0 || u[0] == '/' {
        0
    } else {
        1 + segment_len(u.drop_first())
    }
}

pub proof fn lemma_variable_len_bounds(t: Seq<char>)
    requires
        t.len() > 0,
    ensures
        1 <= variable_len(t) <= t.len(),
    decreases t.len(),
{
    if t[0] != '}' {
        if t.len() > 1 {
            lemma_variable_len_bounds(t.drop_first());
        } else {
            assert(t.drop_first().len() == 0);
            assert(variable_len(t.drop_first()) == 0);
        }
    }
}

/// Whether `uri` matches `template`. Literal template characters must match
/// the URI one for one. A variable `{name}` needs at least one URI character
/// left and takes the whole run of URI characters up to the next `/` (or to
/// the end); it never gives characters back. The match succeeds only when
/// template and URI are used up together.
pub open spec fn template_matches(uri: Seq<char>, template: Seq<char>) -> bool
    decreases template.len(),
{
    if template.len() == 0 {
        uri.len() == 0
    } else if template[0] == '{' {
        &&& uri.len() > 0
        &&& {
            let k = variable_len(template);
            if 1 <= k <= template.len() {
                template_matches(uri.skip(segment_len(uri) as int), template.skip(k as int))
            } else {
                false
            }
        }
    } else {
        &&& uri.len() > 0
        &&& uri[0] == template[0]
        &&& template_matches(uri.drop_first(), template.drop_first())
    }
}

/// Simple URI template matcher: `{variable}` placeholders match one path
/// segment (see `template_matches`).
pub fn uri_matches_template(uri: &str, template: &str) -> (res: bool)
    ensures
        res == template_matches(uri@, template@),
{
    let u = chars_of(uri);
    let t = chars_of(template);
    let ghost uu = u@;
    let ghost tt = t@;
    let mut i: usize = 0;
    let mut j: usize = 0;
    assert(uu.skip(0) =~= uu);
    assert(tt.skip(0) =~= tt);
    while j < t.len()
        invariant
            u@ == uu,
            t@ == tt,
            uu == uri@,
            tt == template@,
            i <= u.len(),
            j <= t.len(),
            template_matches(uu, tt) == template_matches(uu.skip(i as int), tt.skip(j as int)),
        decreases t.len() - j,
    {
        let tc = t[j];
        let ghost ui = uu.skip(i as int);
        let ghost tj = tt.skip(j as int);
        if tc == '{' {
            // skip the variable's name, up to and including the closing brace
            let mut k: usize = j;
            let mut go = true;
            while go
                invariant
                    t@ == tt,
                    j <= k <= t.len(),
                    tj == tt.skip(j as int),
                    go ==> variable_len(tj) == (k - j) + variable_len(tt.skip(k as int)),
                    !go ==> variable_len(tj) == k - j,
                    go ==> (k == j || tt[k - 1] != '}'),
                decreases t.len() - k, if go { 1int } else { 0int },
            {
                if k < t.len() {
                    let c = t[k];
                    proof {
                        assert(tt.skip(k as int).drop_first() =~= tt.skip(k + 1));
                    }
                    k = k + 1;
                    go = c != '}';
                } else {
                    go = false;
                }
            }
            proof {
                lemma_variable_len_bounds(tj);
                assert(tj.skip(variable_len(tj) as int) =~= tt.skip(k as int));
            }
            // consume the URI segment
            if i >= u.len() {
                return false;
            }
            let i0 = i;
            while i < u.len() && u[i] != '/'
                invariant
                    u@ == uu,
                    i0 <= i <= u.len(),
                    ui == uu.skip(i0 as int),
                    segment_len(ui) == (i - i0) + segment_len(uu.skip(i as int)),
                decreases u.len() - i,
            {
                proof {
                    assert(uu.skip(i as int).drop_first() =~= uu.skip(i + 1));
                }
                i = i + 1;
            }
            proof {
                assert(segment_len(uu.skip(i as int)) == 0);
                assert(ui.skip(segment_len(ui) as int) =~= uu.skip(i as int));
            }
            j = k;
        } else {
            if i >= u.len() || u[i] != tc {
                return false;
            }
            proof {
                assert(ui.drop_first() =~= uu.skip(i + 1));
                assert(tj.drop_first() =~= tt.skip(j + 1));
            }
            i = i + 1;
            j = j + 1;
        }
    }
    proof {
        assert(tt.skip(j as int).len() == 0);
    }
    i >= u.len()
}

/// A template without `{` holds no variable: a URI matches it exactly when
/// it is the template itself.
pub proof fn law_literal_template_matches_itself_only(uri: Seq<char>, template: Seq<char>)
    requires
        !template.contains('{'),
    ensures
        template_matches(uri, template) <==> uri == template,
    decreases template.len(),
{
    if template.len() == 0 {
        if uri.len() == 0 {
            assert(uri =~= template);
        }
    } else {
        assert(template[0] != '{') by {
            if template[0] == '{' {
                assert(template.contains('{'));
            }
        }
        assert(!template.drop_first().contains('{')) by {
            if template.drop_first().contains('{') {
                let i = choose|i: int| 0 <= i < template.drop_first().len() && template.drop_first()[i] == '{';
                assert(template[i + 1] == '{');
            }
        }
        if uri.len() > 0 {
            law_literal_template_matches_itself_only(uri.drop_first(), template.drop_first());
            if uri[0] == template[0] && uri.drop_first() == template.drop_first() {
                assert(uri.len() == template.len());
                assert forall|i: int| 0 <= i < uri.len() implies uri[i] == template[i] by {
                    if i > 0 {
                        assert(uri.drop_first()[i - 1] == template.drop_first()[i - 1]);
                    }
                }
                assert(uri =~= template);
            }
            if uri == template {
                assert(uri.drop_first() =~= template.drop_first());
            }
        }
    }
}

/// A template that starts with a variable never matches the empty URI.
pub proof fn law_variable_needs_a_character(template: Seq<char>)
    requires
        template.len() > 0,
        template[0] == '{',
    ensures
        !template_matches(Seq::empty(), template),
{
}

/// A variable's name without `}`, then `}`: the variable takes the name and
/// the brace, whatever follows.
proof fn lemma_variable_len_to_brace(name: Seq<char>, rest: Seq<char>)
    requires
        !name.contains('}'),
    ensures
        variable_len(name + seq!['}'] + rest) == name.len() + 1,
    decreases name.len(),
{
    let t = name + seq!['}'] + rest;
    if name.len() > 0 {
        assert(name[0] != '}') by {
            if name[0] == '}' {
                assert(name.contains('}'));
            }
        }
        assert(t.drop_first() =~= name.drop_first() + seq!['}'] + rest);
        assert(!name.drop_first().contains('}')) by {
            if name.drop_first().contains('}') {
                let i = choose|i: int| 0 <= i < name.drop_first().len() && name.drop_first()[i] == '}';
                assert(name[i + 1] == '}');
            }
        }
        lemma_variable_len_to_brace(name.drop_first(), rest);
    } else {
        assert(t[0] == '}');
    }
}

/// A URI's first segment is all of it exactly when it holds no `/`.
proof fn lemma_segment_len_whole(u: Seq<char>)
    ensures
        segment_len(u) <= u.len(),
        segment_len(u) == u.len() <==> !u.contains('/'),
    decreases u.len(),
{
    if u.len() > 0 {
        lemma_segment_len_whole(u.drop_first());
        if u[0] == '/' {
            assert(u.contains('/'));
        } else {
            if u.drop_first().contains('/') {
                let i = choose|i: int| 0 <= i < u.drop_first().len() && u.drop_first()[i] == '/';
                assert(u[i + 1] == '/');
            }
            if u.contains('/') {
                let i = choose|i: int| 0 <= i < u.len() && u[i] == '/';
                assert(u.drop_first()[i - 1] == '/');
            }
        }
    }
}

/// A template made of a literal prefix and one variable, such as
/// `user://{id}`, matches exactly the URIs that start with the prefix and
/// go on with at least one character and no `/`.
pub proof fn law_single_variable_template(prefix: Seq<char>, name: Seq<char>, uri: Seq<char>)
    requires
        !prefix.contains('{'),
        !name.contains('}'),
    ensures
        template_matches(uri, prefix + seq!['{'] + name + seq!['}']) <==> {
            &&& uri.len() > prefix.len()
            &&& uri.take(prefix.len() as int) == prefix
            &&& !uri.skip(prefix.len() as int).contains('/')
        },
    decreases prefix.len(),
{
    let t = prefix + seq!['{'] + name + seq!['}'];
    if prefix.len() == 0 {
        assert(t =~= seq!['{'] + (name + seq!['}']));
        assert(t.drop_first() =~= name + seq!['}'] + Seq::<char>::empty());
        lemma_variable_len_to_brace(name, Seq::<char>::empty());
        assert(variable_len(t) == t.len());
        assert(t.skip(t.len() as int) =~= Seq::<char>::empty());
        lemma_segment_len_whole(uri);
        let rest = uri.skip(segment_len(uri) as int);
        assert(template_matches(rest, Seq::<char>::empty()) == (rest.len() == 0));
        assert(template_matches(uri, t) == (uri.len() > 0 && template_matches(rest, Seq::<char>::empty())));
        assert(uri.take(0) =~= prefix);
        assert(uri.skip(0) =~= uri);
    } else {
        assert(prefix[0] != '{') by {
            if prefix[0] == '{' {
                assert(prefix.contains('{'));
            }
        }
        assert(!prefix.drop_first().contains('{')) by {
            if prefix.drop_first().contains('{') {
                let i = choose|i: int| 0 <= i < prefix.drop_first().len() && prefix.drop_first()[i] == '{';
                assert(prefix[i + 1] == '{');
            }
        }
        assert(t.drop_first() =~= prefix.drop_first() + seq!['{'] + name + seq!['}']);
        assert(t[0] == prefix[0]);
        if uri.len() > 0 {
            law_single_variable_template(prefix.drop_first(), name, uri.drop_first());
            let n = prefix.len() as int;
            if uri.len() >= n {
                assert(uri.drop_first().skip(n - 1) =~= uri.skip(n));
            }
            if uri.len() > n && uri.take(n) == prefix {
                assert(uri[0] == uri.take(n)[0]);
                assert(uri.drop_first().take(n - 1) =~= prefix.drop_first()) by {
                    assert forall|i: int| 0 <= i < n - 1 implies uri.drop_first().take(n - 1)[i] == prefix.drop_first()[i] by {
                        assert(uri.take(n)[i + 1] == prefix[i + 1]);
                    }
                }
            }
            if uri[0] == prefix[0] && uri.drop_first().len() > n - 1 && uri.drop_first().take(n - 1) == prefix.drop_first() {
                assert(uri.take(n) =~= prefix) by {
                    assert forall|i: int| 0 <= i < n implies uri.take(n)[i] == prefix[i] by {
                        if i > 0 {
                            assert(uri.drop_first().take(n - 1)[i - 1] == prefix.drop_first()[i - 1]);
                        }
                    }
                }
            }
        }
    }
}

/// A literal prefix matches itself and leaves the rest of the template to
/// the rest of the URI.
pub proof fn law_literal_prefix(p: Seq<char>, uri: Seq<char>, template: Seq<char>)
    requires
        !p.contains('{'),
    ensures
        template_matches(p + uri, p + template) == template_matches(uri, template),
    decreases p.len(),
{
    if p.len() > 0 {
        assert(p[0] != '{') by {
            if p[0] == '{' {
                assert(p.contains('{'));
            }
        }
        assert(!p.drop_first().contains('{')) by {
            if p.drop_first().contains('{') {
                let i = choose|i: int| 0 <= i < p.drop_first().len() && p.drop_first()[i] == '{';
                assert(p[i + 1] == '{');
            }
        }
        assert((p + uri).drop_first() =~= p.drop_first() + uri);
        assert((p + template).drop_first() =~= p.drop_first() + template);
        law_literal_prefix(p.drop_first(), uri, template);
    } else {
        assert(p + uri =~= uri);
        assert(p + template =~= template);
    }
}

/// A variable `{name}` takes exactly one path segment, whatever follows it
/// in the template: on a URI made of a non-empty segment `x` (no `/`) and a
/// rest `w` that is empty or starts with `/`, the template matches exactly
/// when what follows the variable matches `w`.
pub proof fn law_variable_takes_one_segment(name: Seq<char>, rest: Seq<char>, x: Seq<char>, w: Seq<char>)
    requires
        !name.contains('}'),
        x.len() > 0,
        !x.contains('/'),
        w.len() == 0 || w[0] == '/',
    ensures
        template_matches(x + w, seq!['{'] + name + seq!['}'] + rest) == template_matches(w, rest),
{
    let t = seq!['{'] + name + seq!['}'] + rest;
    let u = x + w;
    assert(t.drop_first() =~= name + seq!['}'] + rest);
    lemma_variable_len_to_brace(name, rest);
    let k = variable_len(t);
    assert(k == name.len() + 2);
    assert(t.skip(k as int) =~= rest);
    lemma_segment_len_whole(x);
    lemma_segment_len_append(x, w);
    assert(u.skip(x.len() as int) =~= w);
}

/// The first segment of `x + w` is `x` when `x` holds no `/` and `w` is
/// empty or starts with `/`.
proof fn lemma_segment_len_append(x: Seq<char>, w: Seq<char>)
    requires
        !x.contains('/'),
        w.len() == 0 || w[0] == '/',
    ensures
        segment_len(x + w) == x.len(),
    decreases x.len(),
{
    let u = x + w;
    if x.len() == 0 {
        assert(u =~= w);
    } else {
        assert(x[0] != '/') by {
            if x[0] == '/' {
                assert(x.contains('/'));
            }
        }
        assert(!x.drop_first().contains('/')) by {
            if x.drop_first().contains('/') {
                let i = choose|i: int| 0 <= i < x.drop_first().len() && x.drop_first()[i] == '/';
                assert(x[i + 1] == '/');
            }
        }
        assert(u.drop_first() =~= x.drop_first() + w);
        lemma_segment_len_append(x.drop_first(), w);
    }
}

/// A template of a literal prefix and two variables separated by `/`, such
/// as `repo://{owner}/{name}`, matches the prefix followed by two non-empty
/// segments separated by `/`, one segment for each variable.
pub proof fn law_two_variables_match_two_segments(
    p: Seq<char>,
    a: Seq<char>,
    b: Seq<char>,
    x: Seq<char>,
    y: Seq<char>,
)
    requires
        !p.contains('{'),
        !a.contains('}'),
        !b.contains('}'),
        x.len() > 0,
        !x.contains('/'),
        y.len() > 0,
        !y.contains('/'),
    ensures
        template_matches(
            p + x + seq!['/'] + y,
            p + seq!['{'] + a + seq!['}'] + seq!['/'] + seq!['{'] + b + seq!['}'],
        ),
{
    let rest_t = seq!['/'] + seq!['{'] + b + seq!['}'];
    let rest_u = seq!['/'] + y;
    let var_b = seq!['{'] + b + seq!['}'];
    assert(p + x + seq!['/'] + y =~= p + (x + rest_u));
    assert(p + seq!['{'] + a + seq!['}'] + seq!['/'] + seq!['{'] + b + seq!['}']
        =~= p + (seq!['{'] + a + seq!['}'] + rest_t));
    law_literal_prefix(p, x + rest_u, seq!['{'] + a + seq!['}'] + rest_t);
    law_variable_takes_one_segment(a, rest_t, x, rest_u);
    assert(!seq!['/'].contains('{')) by {
        if seq!['/'].contains('{') {
            let i = choose|i: int| 0 <= i < seq!['/'].len() && seq!['/'][i] == '{';
            assert(seq!['/'][i] == '/');
        }
    }
    assert(rest_t =~= seq!['/'] + (var_b + Seq::<char>::empty()));
    assert(rest_u =~= seq!['/'] + (y + Seq::<char>::empty()));
    law_literal_prefix(seq!['/'], y + Seq::<char>::empty(), var_b + Seq::<char>::empty());
    assert(var_b + Seq::<char>::empty() =~= seq!['{'] + b + seq!['}'] + Seq::<char>::empty());
    law_variable_takes_one_segment(b, Seq::<char>::empty(), y, Seq::<char>::empty());
}

} // verus!
