//! What the one-line description of the parameters says, and what it leaves
//! out.
use crate::params::AstraParams;
use vstd::prelude::*;

verus! {

/// The parameters in one line, with the ratio and the center as given: an
/// iterative method shows its iterations, another its filter, and the padding
/// is shown where it is set.
pub open spec fn description<F>(p: AstraParams<F>, ratio: Seq<char>, center: Seq<char>) -> Seq<
    char,
> {
    crate::method::astra_text(p.method, p.gpu) + (if p.method is Fbp || p.method is Bp {
        ", "@ + crate::params::filter_text(p.filter) + " filter"@
    } else {
        ", "@ + crate::text::decimal_of(p.num_iter as int) + " iter"@
    }) + ", ratio "@ + ratio + (if p.pad >= 0 {
        ", pad "@ + crate::text::decimal_of(p.pad as int)
    } else {
        seq![]
    }) + ", center "@ + center
}

/// `text` describes the parameters in one line, their numbers written by
/// `two_decimals`.
pub open spec fn described_as<F, D: Fn(F) -> String>(
    p: AstraParams<F>,
    two_decimals: D,
    text: Seq<char>,
) -> bool {
    exists|ratio: String, center: String|
        {
            &&& #[trigger] call_ensures(two_decimals, (p.ratio,), ratio)
            &&& #[trigger] call_ensures(two_decimals, (p.center,), center)
            &&& text == description(p, ratio@, center@)
        }
}

/// `two_decimals` writes a number as the same text every time.
pub open spec fn formats_repeatably<F, D: Fn(F) -> String>(two_decimals: D) -> bool {
    forall|x: F, a: String, b: String|
        #[trigger] call_ensures(two_decimals, (x,), a) && #[trigger] call_ensures(
            two_decimals,
            (x,),
            b,
        ) ==> a@ == b@
}

/// Parameters with the same numbers and the same text for them are described
/// alike.
proof fn lemma_described_alike<F, D: Fn(F) -> String>(
    p: AstraParams<F>,
    q: AstraParams<F>,
    two_decimals: D,
    text: Seq<char>,
)
    requires
        p.ratio == q.ratio,
        p.center == q.center,
        forall|ratio: Seq<char>, center: Seq<char>| #[trigger]
            description(p, ratio, center) == description(q, ratio, center),
    ensures
        described_as(p, two_decimals, text) ==> described_as(q, two_decimals, text),
{
    if described_as(p, two_decimals, text) {
        let (ratio, center) = choose|ratio: String, center: String|
            {
                &&& #[trigger] call_ensures(two_decimals, (p.ratio,), ratio)
                &&& #[trigger] call_ensures(two_decimals, (p.center,), center)
                &&& text == description(p, ratio@, center@)
            };
        assert(call_ensures(two_decimals, (q.ratio,), ratio));
        assert(call_ensures(two_decimals, (q.center,), center));
        assert(text == description(q, ratio@, center@));
    }
}

/// The method decides which of the iterations and the filter is shown: two
/// parameter sets of an iterative method that differ only in the filter, or two
/// of another method that differ only in the iterations, are described alike.
/// What describes the one describes the other, and where a number is written as
/// the same text every time they have one description.
pub proof fn law_ignored_field_is_not_described<F, D: Fn(F) -> String>(
    p: AstraParams<F>,
    q: AstraParams<F>,
    two_decimals: D,
    p_text: Seq<char>,
    q_text: Seq<char>,
)
    requires
        p.method is Fbp || p.method is Bp ==> q == (AstraParams { num_iter: q.num_iter, ..p }),
        !(p.method is Fbp || p.method is Bp) ==> q == (AstraParams { filter: q.filter, ..p }),
    ensures
        described_as(p, two_decimals, p_text) <==> described_as(q, two_decimals, p_text),
        formats_repeatably(two_decimals) && described_as(p, two_decimals, p_text) && described_as(
            q,
            two_decimals,
            q_text,
        ) ==> p_text == q_text,
{
    lemma_described_alike(p, q, two_decimals, p_text);
    lemma_described_alike(q, p, two_decimals, p_text);
}

/// Automatic padding is not described: two parameter sets with negative padding
/// that differ only there are described alike. What describes the one describes
/// the other, and where a number is written as the same text every time they
/// have one description.
pub proof fn law_automatic_padding_is_not_described<F, D: Fn(F) -> String>(
    p: AstraParams<F>,
    q: AstraParams<F>,
    two_decimals: D,
    p_text: Seq<char>,
    q_text: Seq<char>,
)
    requires
        p.pad < 0,
        q.pad < 0,
        q == (AstraParams { pad: q.pad, ..p }),
    ensures
        described_as(p, two_decimals, p_text) <==> described_as(q, two_decimals, p_text),
        formats_repeatably(two_decimals) && described_as(p, two_decimals, p_text) && described_as(
            q,
            two_decimals,
            q_text,
        ) ==> p_text == q_text,
{
    lemma_described_alike(p, q, two_decimals, p_text);
    lemma_described_alike(q, p, two_decimals, p_text);
}

/// The text holds `, pad ` somewhere.
pub open spec fn shows_padding(text: Seq<char>) -> bool {
    exists|i: int| #[trigger] crate::text::occurs_at(text, ", pad "@, i)
}

/// Where `, pad ` can stand in a text that starts with `head`, a comma and a
/// space: in `head`, at that comma, or in what follows.
proof fn lemma_padding_behind(head: Seq<char>, tail: Seq<char>, i: int)
    requires
        crate::text::occurs_at(head + ", "@ + tail, ", pad "@, i),
    ensures
        crate::text::occurs_at(head, ", pad "@, i) || (i == head.len() && tail.len() > 2 && tail[0]
            == 'p' && tail[2] == 'd') || (i >= head.len() + 2 && crate::text::occurs_at(
            tail,
            ", pad "@,
            i - head.len() - 2,
        )),
{
    reveal_strlit(", ");
    reveal_strlit(", pad ");
    let text = head + ", "@ + tail;
    let part = ", pad "@;
    let found = text.subrange(i, i + part.len());
    assert(found[0] == ',' && found[2] == 'p' && found[4] == 'd');
    if i + part.len() <= head.len() {
        assert(head.subrange(i, i + part.len()) =~= found);
    } else if i < head.len() {
        assert(text[head.len() as int] == ',');
        assert(found[head.len() - i] == ',');
    } else if i == head.len() {
        assert(tail[0] == found[2] && tail[2] == found[4]);
    } else {
        assert(text[i] == ',');
        assert(i != head.len() + 1);
        assert(tail.subrange(i - head.len() - 2, i - head.len() - 2 + part.len()) =~= found);
    }
}

/// Where `, pad ` stands in a word without a comma and a number behind it, it
/// stands in the number.
proof fn lemma_padding_in_number(word: Seq<char>, number: Seq<char>, i: int)
    requires
        !word.contains(','),
        crate::text::occurs_at(word + number, ", pad "@, i),
    ensures
        crate::text::occurs_at(number, ", pad "@, i - word.len()),
{
    reveal_strlit(", pad ");
    let part = ", pad "@;
    let found = (word + number).subrange(i, i + part.len());
    assert(found[0] == ',');
    assert((word + number)[i] == ',');
    if i < word.len() {
        assert(word[i] == ',');
    }
    assert(number.subrange(i - word.len(), i - word.len() + part.len()) =~= found);
}

/// What stands in the middle of a text stands in the text.
proof fn lemma_padding_within(before: Seq<char>, middle: Seq<char>, after: Seq<char>)
    requires
        shows_padding(middle),
    ensures
        shows_padding(before + middle + after),
{
    let i = choose|i: int| #[trigger] crate::text::occurs_at(middle, ", pad "@, i);
    let text = before + middle + after;
    let j = before.len() + i;
    assert(text.subrange(j, j + ", pad "@.len()) =~= middle.subrange(i, i + ", pad "@.len()));
    assert(crate::text::occurs_at(text, ", pad "@, j));
}

/// `, pad ` cannot stand in a text without a comma.
proof fn lemma_no_padding_without_comma(s: Seq<char>, i: int)
    requires
        !s.contains(','),
    ensures
        !crate::text::occurs_at(s, ", pad "@, i),
{
    reveal_strlit(", pad ");
    if crate::text::occurs_at(s, ", pad "@, i) {
        let found = s.subrange(i, i + ", pad "@.len());
        assert(found[0] == ',');
        assert(s[i] == ',');
    }
}

/// A text that is put together from two without a comma has none.
proof fn lemma_no_comma(a: Seq<char>, b: Seq<char>)
    requires
        !a.contains(','),
        !b.contains(','),
    ensures
        !(a + b).contains(','),
{
    assert forall|k: int| 0 <= k < (a + b).len() implies #[trigger] (a + b)[k] != ',' by {
        if k < a.len() {
            assert(a.contains(a[k]));
        } else {
            assert(b.contains(b[k - a.len()]));
        }
    }
}

/// A decimal form holds no comma and does not start like a word.
proof fn lemma_decimal(n: int)
    ensures
        !crate::text::decimal_of(n).contains(','),
        crate::text::decimal_of(n).len() > 0,
        crate::text::decimal_of(n)[0] != 'p',
{
    crate::text::law_decimal_is_sign_and_digits(n);
    assert forall|k: int| 0 <= k < crate::text::decimal_of(n).len() implies
        #[trigger] crate::text::decimal_of(n)[k] != ',' by {}
}

/// The names of the algorithms and the filters hold no comma, and no filter's
/// name starts like the padding.
proof fn lemma_names<F>(p: AstraParams<F>)
    ensures
        !crate::method::astra_text(p.method, p.gpu).contains(','),
        !crate::params::filter_text(p.filter).contains(','),
        crate::params::filter_text(p.filter).len() > 2,
        crate::params::filter_text(p.filter)[0] != 'p' || crate::params::filter_text(p.filter)[2]
            != 'd',
{
    reveal_strlit("FBP");
    reveal_strlit("SIRT");
    reveal_strlit("SART");
    reveal_strlit("CGLS");
    reveal_strlit("BP");
    reveal_strlit("_CUDA");
    reveal_strlit("ram-lak");
    reveal_strlit("hamming");
    reveal_strlit("hann");
    reveal_strlit("lanczos");
    reveal_strlit("kaiser");
    reveal_strlit("parzen");
    lemma_no_comma(crate::method::base_text(p.method), "_CUDA"@);
    assert("parzen"@[2] == 'r');
}

/// What the description shows between the algorithm and the ratio.
spec fn setting<F>(p: AstraParams<F>) -> Seq<char> {
    if p.method is Fbp || p.method is Bp {
        crate::params::filter_text(p.filter) + " filter"@
    } else {
        crate::text::decimal_of(p.num_iter as int) + " iter"@
    }
}

/// The description as the parts between its commas.
proof fn lemma_description_parts<F>(p: AstraParams<F>, ratio: Seq<char>, center: Seq<char>)
    ensures
        ({
            let shown_ratio = "ratio "@ + ratio;
            let shown_center = "center "@ + center;
            let rest = if p.pad >= 0 {
                "pad "@ + crate::text::decimal_of(p.pad as int) + ", "@ + shown_center
            } else {
                shown_center
            };
            description(p, ratio, center) == crate::method::astra_text(p.method, p.gpu) + ", "@ + (
            setting(p) + ", "@ + (shown_ratio + ", "@ + rest))
        }),
{
    reveal_strlit(", ");
    reveal_strlit("ratio ");
    reveal_strlit(", ratio ");
    reveal_strlit("pad ");
    reveal_strlit(", pad ");
    reveal_strlit("center ");
    reveal_strlit(", center ");
    let shown_ratio = "ratio "@ + ratio;
    let shown_center = "center "@ + center;
    assert(", ratio "@ =~= ", "@ + "ratio "@);
    assert(", pad "@ =~= ", "@ + "pad "@);
    assert(", center "@ =~= ", "@ + "center "@);
    let rest = if p.pad >= 0 {
        "pad "@ + crate::text::decimal_of(p.pad as int) + ", "@ + shown_center
    } else {
        shown_center
    };
    assert(description(p, ratio, center) =~= crate::method::astra_text(p.method, p.gpu) + ", "@ + (
    setting(p) + ", "@ + (shown_ratio + ", "@ + rest)));
}

/// Where the padding stands in a description that shows it: behind the ratio.
spec fn padding_place<F>(p: AstraParams<F>, ratio: Seq<char>) -> int {
    crate::method::astra_text(p.method, p.gpu).len() as int + ", "@.len() + setting(p).len()
        + ", "@.len() + ("ratio "@ + ratio).len()
}

/// Where `, pad ` stands in a description: at the padding, or in one of the
/// numbers.
proof fn lemma_padding_places<F>(
    p: AstraParams<F>,
    ratio: Seq<char>,
    center: Seq<char>,
    i: int,
)
    requires
        crate::text::occurs_at(description(p, ratio, center), ", pad "@, i),
    ensures
        (p.pad >= 0 && i == padding_place(p, ratio)) || shows_padding(ratio) || shows_padding(
            center,
        ),
{
    let name = crate::method::astra_text(p.method, p.gpu);
    let shown_ratio = "ratio "@ + ratio;
    let shown_center = "center "@ + center;
    let number = crate::text::decimal_of(p.pad as int);
    let shown_pad = "pad "@ + number;
    let rest = if p.pad >= 0 {
        shown_pad + ", "@ + shown_center
    } else {
        shown_center
    };
    let behind_setting = shown_ratio + ", "@ + rest;
    let behind_name = setting(p) + ", "@ + behind_setting;
    lemma_description_parts(p, ratio, center);
    reveal_strlit(", ");
    reveal_strlit(" filter");
    reveal_strlit(" iter");
    reveal_strlit("ratio ");
    reveal_strlit("pad ");
    reveal_strlit("center ");
    lemma_names(p);
    lemma_decimal(p.num_iter as int);
    lemma_decimal(p.pad as int);
    lemma_no_comma(crate::params::filter_text(p.filter), " filter"@);
    lemma_no_comma(crate::text::decimal_of(p.num_iter as int), " iter"@);
    lemma_no_comma("pad "@, number);
    lemma_padding_behind(name, behind_name, i);
    lemma_no_padding_without_comma(name, i);
    assert(behind_name[0] == setting(p)[0] && behind_name[2] == setting(p)[2]);
    let j = i - name.len() - 2;
    lemma_padding_behind(setting(p), behind_setting, j);
    lemma_no_padding_without_comma(setting(p), j);
    assert(behind_setting[0] == 'r');
    let k = j - setting(p).len() - 2;
    lemma_padding_behind(shown_ratio, rest, k);
    if crate::text::occurs_at(shown_ratio, ", pad "@, k) {
        lemma_padding_in_number("ratio "@, ratio, k);
    } else if p.pad < 0 {
        assert(rest[0] == 'c');
        lemma_padding_in_number("center "@, center, k - shown_ratio.len() - 2);
    } else if k != shown_ratio.len() {
        let m = k - shown_ratio.len() - 2;
        lemma_padding_behind(shown_pad, shown_center, m);
        lemma_no_padding_without_comma(shown_pad, m);
        assert(shown_center[0] == 'c');
        lemma_padding_in_number("center "@, center, m - shown_pad.len() - 2);
    }
}

/// The padding is described exactly where it is set, padding of zero included:
/// `, pad ` stands in a description where the padding is not negative, with the
/// padding and the center behind it, and nowhere else but in a number that is
/// itself written so.
pub proof fn law_padding_is_described_where_set<F>(
    p: AstraParams<F>,
    ratio: Seq<char>,
    center: Seq<char>,
)
    ensures
        p.pad >= 0 ==> exists|i: int| #[trigger]
            crate::text::occurs_at(
                description(p, ratio, center),
                ", pad "@ + crate::text::decimal_of(p.pad as int) + ", center "@,
                i,
            ),
        shows_padding(description(p, ratio, center)) <==> p.pad >= 0 || shows_padding(ratio)
            || shows_padding(center),
        !shows_padding(ratio) && !shows_padding(center) ==> forall|i: int| #[trigger]
            crate::text::occurs_at(description(p, ratio, center), ", pad "@, i)
                ==> crate::text::occurs_at(
                description(p, ratio, center),
                ", pad "@ + crate::text::decimal_of(p.pad as int) + ", center "@,
                i,
            ),
{
    let text = description(p, ratio, center);
    let number = crate::text::decimal_of(p.pad as int);
    let shown_ratio = "ratio "@ + ratio;
    let name = crate::method::astra_text(p.method, p.gpu);
    let head = name + ", "@ + setting(p) + ", "@;
    let place = padding_place(p, ratio);
    let part = ", pad "@ + number + ", center "@;
    lemma_description_parts(p, ratio, center);
    reveal_strlit(", ");
    reveal_strlit("ratio ");
    reveal_strlit("pad ");
    reveal_strlit("center ");
    reveal_strlit(", pad ");
    reveal_strlit(", center ");
    let behind_ratio = if p.pad >= 0 {
        part
    } else {
        ", center "@
    };
    assert(text =~= (head + "ratio "@) + ratio + (behind_ratio + center));
    assert(text =~= (head + "ratio "@ + ratio + behind_ratio) + center + seq![]);
    if p.pad >= 0 {
        assert(text.subrange(place, place + part.len()) =~= part);
        assert(crate::text::occurs_at(text, part, place));
        assert(text.subrange(place, place + ", pad "@.len()) =~= ", pad "@);
        assert(crate::text::occurs_at(text, ", pad "@, place));
    }
    if shows_padding(ratio) {
        lemma_padding_within(head + "ratio "@, ratio, behind_ratio + center);
    }
    if shows_padding(center) {
        lemma_padding_within(head + "ratio "@ + ratio + behind_ratio, center, seq![]);
    }
    assert forall|i: int| #[trigger] crate::text::occurs_at(text, ", pad "@, i) implies (p.pad >= 0
        && i == place) || shows_padding(ratio) || shows_padding(center) by {
        lemma_padding_places(p, ratio, center, i);
    }
}

/// What `describe` gives shows the padding exactly where it is set, where no
/// number is written with `, pad ` in it.
pub proof fn law_described_padding_is_set<F, D: Fn(F) -> String>(
    p: AstraParams<F>,
    two_decimals: D,
    text: Seq<char>,
)
    requires
        forall|shown: String| #[trigger]
            call_ensures(two_decimals, (p.ratio,), shown) ==> !shows_padding(shown@),
        forall|shown: String| #[trigger]
            call_ensures(two_decimals, (p.center,), shown) ==> !shows_padding(shown@),
        described_as(p, two_decimals, text),
    ensures
        shows_padding(text) <==> p.pad >= 0,
{
    let (ratio, center) = choose|ratio: String, center: String|
        {
            &&& #[trigger] call_ensures(two_decimals, (p.ratio,), ratio)
            &&& #[trigger] call_ensures(two_decimals, (p.center,), center)
            &&& text == description(p, ratio@, center@)
        };
    law_padding_is_described_where_set(p, ratio@, center@);
}

/// The description is put together from the names and numbers that the other
/// operations give: the algorithm's name, the iterations of an iterative method
/// or the filter of another, the ratio, the padding where it is not negative,
/// and the center.
pub proof fn law_description_names_what_is_set<F: Copy, D: Fn(F) -> String>(
    p: AstraParams<F>,
    two_decimals: D,
    text: String,
    name: String,
    iterative: bool,
    iterations: String,
    filter: &'static str,
    pad: String,
)
    requires
        call_ensures(AstraParams::<F>::describe::<D>, (&p, &two_decimals), text),
        call_ensures(crate::method::AstraMethod::astra_name, (p.method, p.gpu), name),
        call_ensures(crate::method::AstraMethod::is_iterative, (p.method,), iterative),
        call_ensures(crate::text::signed_decimal, (p.num_iter,), iterations),
        call_ensures(crate::text::signed_decimal, (p.pad,), pad),
        call_ensures(AstraParams::<F>::filter_name, (&p,), filter),
    ensures
        exists|ratio: String, center: String|
            {
                &&& #[trigger] call_ensures(two_decimals, (p.ratio,), ratio)
                &&& #[trigger] call_ensures(two_decimals, (p.center,), center)
                &&& text@ == name@ + ", "@ + (if iterative {
                    iterations@ + " iter"@
                } else {
                    filter@ + " filter"@
                }) + ", ratio "@ + ratio@ + (if p.pad >= 0 {
                    ", pad "@ + pad@
                } else {
                    seq![]
                }) + ", center "@ + center@
            },
{
    let (ratio, center) = choose|ratio: String, center: String|
        {
            &&& #[trigger] call_ensures(two_decimals, (p.ratio,), ratio)
            &&& #[trigger] call_ensures(two_decimals, (p.center,), center)
            &&& text@ == description(p, ratio@, center@)
        };
    assert(text@ =~= name@ + ", "@ + (if iterative {
        iterations@ + " iter"@
    } else {
        filter@ + " filter"@
    }) + ", ratio "@ + ratio@ + (if p.pad >= 0 {
        ", pad "@ + pad@
    } else {
        seq![]
    }) + ", center "@ + center@);
}

} // verus!
