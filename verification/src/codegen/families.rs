//! All swizzles of one to four letters over a set of letters.
use vstd::prelude::*;
use vstd::string::StrSliceExecFns;
use itertools::Itertools;
use crate::codegen::text::{push_char, push_str};

verus! {

/// All pairs of one string of `a` and one of `b`: `cartesian_product` of
/// `itertools`, which goes through `a` once and for each of its items
/// through all of `b`, so that pair `t` holds item `t / b.len()` of `a` and
/// item `t % b.len()` of `b`.
#[verifier::external_body]
fn cartesian_product(a: &Vec<String>, b: &Vec<String>) -> (pairs: Vec<(String, String)>)
    requires
        a@.len() * b@.len() <= usize::MAX,
    ensures
        pairs@.len() == a@.len() * b@.len(),
        forall|t: int|
            0 <= t < pairs@.len() ==> (#[trigger] pairs@[t]).0@ == a@[t / (b@.len() as int)]@
                && pairs@[t].1@ == b@[t % (b@.len() as int)]@,
{
    a.iter().cartesian_product(b.iter()).map(|(x, y)| (x.clone(), y.clone())).collect()
}

/// The swizzle names of `level + 1` letters over `letters`. Those of one
/// letter stand in the order of the letters; a longer name is a name that is
/// one letter shorter with one letter more, and all longer names of one
/// shorter name stand together, in the order of the letters.
pub open spec fn names(letters: Seq<char>, level: nat) -> Seq<Seq<char>>
    decreases level,
{
    if level == 0 {
        Seq::new(letters.len(), |i: int| seq![letters[i]])
    } else {
        let shorter = names(letters, (level - 1) as nat);
        Seq::new(
            shorter.len() * letters.len(),
            |t: int| shorter[t / (letters.len() as int)].push(letters[t % (letters.len() as int)]),
        )
    }
}

/// `acc` followed by a line for each of the first `n` names that asks for
/// the accessor of the name, and where `with_assign` holds by a line that
/// asks for its setter.
pub open spec fn asks_onto(acc: Seq<char>, all: Seq<Seq<char>>, n: nat, with_assign: bool) -> Seq<
    char,
>
    decreases n,
{
    if n == 0 {
        acc
    } else {
        let before = asks_onto(acc, all, (n - 1) as nat, with_assign) + "gen_swizz!("@ + all[n
            - 1] + ");\n"@;
        if with_assign {
            before + "gen_swizz_assign!("@ + all[n - 1] + ");\n"@
        } else {
            before
        }
    }
}

/// Whether the names of `level + 1` letters get setters: those of one and
/// two letters always, longer ones where the letters are as many as the name
/// is long without two.
pub open spec fn level_assigns(letters: Seq<char>, level: nat) -> bool {
    level == 0 || level - 1 <= letters.len()
}

/// `acc` followed by what is asked for the names of up to `levels` letters.
pub open spec fn levels_onto(acc: Seq<char>, letters: Seq<char>, levels: nat) -> Seq<char>
    decreases levels,
{
    if levels == 0 {
        acc
    } else {
        let level = (levels - 1) as nat;
        asks_onto(
            levels_onto(acc, letters, level),
            names(letters, level),
            names(letters, level).len(),
            level_assigns(letters, level),
        )
    }
}

/// The source that asks for the accessors and setters of every swizzle of
/// one to four letters over `letters`.
pub open spec fn swizz_funcs_text(letters: Seq<char>) -> Seq<char> {
    levels_onto(Seq::empty(), letters, 4)
}

/// The number of letters multiplied `level + 1` times with itself.
pub open spec fn names_count(letters: nat, level: nat) -> nat
    decreases level,
{
    if level == 0 {
        letters
    } else {
        names_count(letters, (level - 1) as nat) * letters
    }
}

/// There are as many names of `level + 1` letters as the number of letters
/// multiplied `level + 1` times with itself.
pub proof fn lemma_names_count(letters: Seq<char>, level: nat)
    ensures
        names(letters, level).len() == names_count(letters.len(), level),
    decreases level,
{
    if level > 0 {
        lemma_names_count(letters, (level - 1) as nat);
    }
}

fn push_asks(
    out: &mut String,
    all: &Vec<String>,
    with_assign: bool,
    Ghost(model): Ghost<Seq<Seq<char>>>,
)
    requires
        model.len() == all@.len(),
        forall|i: int| 0 <= i < all@.len() ==> (#[trigger] all@[i])@ == model[i],
    ensures
        final(out)@ == asks_onto(old(out)@, model, model.len(), with_assign),
{
    let mut i: usize = 0;
    while i < all.len()
        invariant
            i <= all.len(),
            model.len() == all@.len(),
            forall|j: int| 0 <= j < all@.len() ==> (#[trigger] all@[j])@ == model[j],
            out@ == asks_onto(old(out)@, model, i as nat, with_assign),
        decreases all.len() - i,
    {
        let char_arr = &all[i];
        assert(char_arr@ == model[i as int]);
        push_str(out, "gen_swizz!(");
        push_str(out, char_arr.as_str());
        push_str(out, ");\n");
        if with_assign {
            push_str(out, "gen_swizz_assign!(");
            push_str(out, char_arr.as_str());
            push_str(out, ");\n");
        }
        i = i + 1;
    }
}

/// Writes the source that asks for every swizzle over the letters of
/// `in_str`: see `swizz_funcs_text`. The names of four letters have to be
/// countable in a `usize`.
pub fn gen_swizz_funcs(in_str: &str) -> (out_src: String)
    requires
        names_count(in_str@.len(), 3) <= usize::MAX,
    ensures
        out_src@ == swizz_funcs_text(in_str@),
{
    let ghost letters = in_str@;
    let count = in_str.unicode_len();
    let mut chars_initial: Vec<String> = Vec::new();
    let mut i: usize = 0;
    while i < count
        invariant
            i <= count,
            count == letters.len(),
            letters == in_str@,
            chars_initial@.len() == i,
            forall|j: int| 0 <= j < i ==> (#[trigger] chars_initial@[j])@ == seq![letters[j]],
        decreases count - i,
    {
        let mut one = String::new();
        push_char(&mut one, in_str.get_char(i));
        assert(one@ =~= seq![letters[i as int]]);
        chars_initial.push(one);
        i = i + 1;
    }
    let mut chars: Vec<String> = Vec::new();
    let mut i: usize = 0;
    while i < count
        invariant
            i <= count,
            count == letters.len(),
            chars_initial@.len() == count,
            forall|j: int| 0 <= j < count ==> (#[trigger] chars_initial@[j])@ == seq![letters[j]],
            chars@.len() == i,
            forall|j: int| 0 <= j < i ==> (#[trigger] chars@[j])@ == seq![letters[j]],
        decreases count - i,
    {
        let mut one = String::new();
        push_str(&mut one, chars_initial[i].as_str());
        assert(one@ =~= seq![letters[i as int]]);
        chars.push(one);
        i = i + 1;
    }
    let mut out_src = String::new();
    assert(names(letters, 0).len() == count);
    push_asks(&mut out_src, &chars, true, Ghost(names(letters, 0)));
    assert(levels_onto(Seq::empty(), letters, 0) == Seq::<char>::empty());
    assert(out_src@ == levels_onto(Seq::empty(), letters, 1));
    let mut vec_d: usize = 0;
    while vec_d < 3
        invariant
            vec_d <= 3,
            count == letters.len(),
            names_count(letters.len(), 3) <= usize::MAX,
            chars_initial@.len() == count,
            forall|j: int| 0 <= j < count ==> (#[trigger] chars_initial@[j])@ == seq![letters[j]],
            chars@.len() == names(letters, vec_d as nat).len(),
            forall|j: int|
                0 <= j < chars@.len() ==> (#[trigger] chars@[j])@ == names(
                    letters,
                    vec_d as nat,
                )[j],
            out_src@ == levels_onto(Seq::empty(), letters, (vec_d + 1) as nat),
        decreases 3 - vec_d,
    {
        let ghost shorter = names(letters, vec_d as nat);
        let ghost longer = names(letters, (vec_d + 1) as nat);
        proof {
            lemma_names_count(letters, vec_d as nat);
            lemma_names_count(letters, (vec_d + 1) as nat);
            lemma_names_count(letters, 3);
            lemma_names_count_grows(letters.len(), (vec_d + 1) as nat, 3);
        }
        let pairs = cartesian_product(&chars, &chars_initial);
        let mut joined: Vec<String> = Vec::new();
        let mut t: usize = 0;
        while t < pairs.len()
            invariant
                t <= pairs.len(),
                count == letters.len(),
                shorter == names(letters, vec_d as nat),
                longer == names(letters, (vec_d + 1) as nat),
                longer.len() == pairs@.len(),
                pairs@.len() == chars@.len() * chars_initial@.len(),
                chars_initial@.len() == count,
                chars@.len() == shorter.len(),
                forall|j: int|
                    0 <= j < count ==> (#[trigger] chars_initial@[j])@ == seq![letters[j]],
                forall|j: int| 0 <= j < chars@.len() ==> (#[trigger] chars@[j])@ == shorter[j],
                forall|k: int|
                    0 <= k < pairs@.len() ==> {
                        &&& (#[trigger] pairs@[k]).0@ == chars@[k / (count as int)]@
                        &&& pairs@[k].1@ == chars_initial@[k % (count as int)]@
                    },
                joined@.len() == t,
                forall|j: int| 0 <= j < t ==> (#[trigger] joined@[j])@ == longer[j],
            decreases pairs.len() - t,
        {
            let mut one = String::new();
            push_str(&mut one, pairs[t].0.as_str());
            push_str(&mut one, pairs[t].1.as_str());
            proof {
                let k = t as int;
                let m = count as int;
                assert(0 < m) by {
                    if m == 0 {
                        assert(chars@.len() * 0 == 0);
                    }
                }
                assert(0 <= k / m < chars@.len() && 0 <= k % m < m) by (nonlinear_arith)
                    requires
                        0 <= k < chars@.len() * m,
                        0 < m,
                ;
                assert(pairs@[k].0@ == chars@[k / m]@);
                assert(chars@[k / m]@ == shorter[k / m]);
                assert(chars_initial@[k % m]@ == seq![letters[k % m]]);
                assert(one@ =~= longer[k]);
            }
            joined.push(one);
            t = t + 1;
        }
        chars = joined;
        push_asks(&mut out_src, &chars, vec_d <= count, Ghost(longer));
        vec_d = vec_d + 1;
    }
    out_src
}

/// The count of names does not shrink with their length.
pub proof fn lemma_names_count_grows(letters: nat, low: nat, high: nat)
    requires
        low <= high,
    ensures
        letters == 0 || names_count(letters, low) <= names_count(letters, high),
    decreases high - low,
{
    if low < high && letters > 0 {
        lemma_names_count_grows(letters, low, (high - 1) as nat);
        assert(names_count(letters, (high - 1) as nat) <= names_count(letters, (high - 1) as nat)
            * letters) by (nonlinear_arith)
            requires
                letters >= 1,
        ;
    }
}

} // verus!
