//! The reconstruction algorithms and their names.
use crate::text::{same_text, strip_suffix};
use vstd::prelude::*;

verus! {

/// The astra algorithms exposed by algotom's wrapper; each exists as a CPU
/// and a `_CUDA` variant.
#[derive(Clone, Copy, Debug, PartialEq, Eq, Structural)]
pub enum AstraMethod {
    Fbp,
    Sirt,
    Sart,
    Cgls,
    Bp,
}

/// The name of the CPU variant of an algorithm.
pub open spec fn base_text(method: AstraMethod) -> Seq<char> {
    match method {
        AstraMethod::Fbp => "FBP"@,
        AstraMethod::Sirt => "SIRT"@,
        AstraMethod::Sart => "SART"@,
        AstraMethod::Cgls => "CGLS"@,
        AstraMethod::Bp => "BP"@,
    }
}

/// The name of an algorithm's CPU or GPU variant.
pub open spec fn astra_text(method: AstraMethod, gpu: bool) -> Seq<char> {
    if gpu {
        base_text(method) + "_CUDA"@
    } else {
        base_text(method)
    }
}

/// The algorithm whose CPU variant has the given name.
pub open spec fn method_with_base(base: Seq<char>) -> Option<AstraMethod> {
    if base == "FBP"@ {
        Some(AstraMethod::Fbp)
    } else if base == "SIRT"@ {
        Some(AstraMethod::Sirt)
    } else if base == "SART"@ {
        Some(AstraMethod::Sart)
    } else if base == "CGLS"@ {
        Some(AstraMethod::Cgls)
    } else if base == "BP"@ {
        Some(AstraMethod::Bp)
    } else {
        None
    }
}

/// The algorithm and variant with the given name.
pub open spec fn method_named(name: Seq<char>) -> Option<(AstraMethod, bool)> {
    match crate::text::stripped(name, "_CUDA"@) {
        Some(base) => match method_with_base(base) {
            Some(method) => Some((method, true)),
            None => None,
        },
        None => match method_with_base(name) {
            Some(method) => Some((method, false)),
            None => None,
        },
    }
}

impl AstraMethod {
    /// Every algorithm, in the order a chooser lists them.
    pub const ALL: [AstraMethod; 5] = [
        AstraMethod::Fbp,
        AstraMethod::Sirt,
        AstraMethod::Sart,
        AstraMethod::Cgls,
        AstraMethod::Bp,
    ];

    /// The algorithm as a chooser shows it.
    pub fn label(self) -> (r: &'static str)
        ensures
            r@ == (match self {
                AstraMethod::Fbp => "FBP — filtered back projection"@,
                AstraMethod::Sirt => "SIRT — simultaneous iterative"@,
                AstraMethod::Sart => "SART — simultaneous algebraic"@,
                AstraMethod::Cgls => "CGLS — conjugate gradient"@,
                AstraMethod::Bp => "BP — plain back projection"@,
            }),
    {
        match self {
            AstraMethod::Fbp => "FBP — filtered back projection",
            AstraMethod::Sirt => "SIRT — simultaneous iterative",
            AstraMethod::Sart => "SART — simultaneous algebraic",
            AstraMethod::Cgls => "CGLS — conjugate gradient",
            AstraMethod::Bp => "BP — plain back projection",
        }
    }

    /// The name of the CPU variant.
    pub fn base_name(self) -> (r: &'static str)
        ensures
            r@ == base_text(self),
    {
        match self {
            AstraMethod::Fbp => "FBP",
            AstraMethod::Sirt => "SIRT",
            AstraMethod::Sart => "SART",
            AstraMethod::Cgls => "CGLS",
            AstraMethod::Bp => "BP",
        }
    }

    /// The `method` string passed to algotom, e.g. `SIRT_CUDA`.
    pub fn astra_name(self, gpu: bool) -> (r: String)
        ensures
            r@ == astra_text(self, gpu),
    {
        let mut name = self.base_name().to_owned();
        if gpu {
            name.append("_CUDA");
        }
        name
    }

    /// The algorithm and variant with the given name.
    pub fn from_astra_name(name: &str) -> (r: Option<(Self, bool)>)
        ensures
            r == method_named(name@),
            match r {
                Some((method, gpu)) => name@ == astra_text(method, gpu),
                None => forall|other: AstraMethod, on_gpu: bool|
                    #![trigger astra_text(other, on_gpu)]
                    name@ != astra_text(other, on_gpu),
            },
    {
        let (base, gpu) = match strip_suffix(name, "_CUDA") {
            Some(base) => (base, true),
            None => (name, false),
        };
        let mut i: usize = 0;
        while i < 5
            invariant
                i <= 5,
                match crate::text::stripped(name@, "_CUDA"@) {
                    Some(rest) => base@ == rest && gpu,
                    None => base@ == name@ && !gpu,
                },
                forall|k: int| 0 <= k < i ==> base@ != base_text(#[trigger] AstraMethod::ALL@[k]),
            decreases 5 - i,
        {
            let method = AstraMethod::ALL[i];
            if same_text(method.base_name(), base) {
                proof {
                    lemma_base_names();
                    lemma_method_named(name@);
                }
                return Some((method, gpu));
            }
            i = i + 1;
        }
        proof {
            assert(base@ != base_text(AstraMethod::ALL@[0]));
            assert(base@ != base_text(AstraMethod::ALL@[1]));
            assert(base@ != base_text(AstraMethod::ALL@[2]));
            assert(base@ != base_text(AstraMethod::ALL@[3]));
            assert(base@ != base_text(AstraMethod::ALL@[4]));
            assert(method_named(name@) is None);
            lemma_method_named(name@);
        }
        None
    }

    /// FBP and BP ignore `num_iter`; the others ignore the filter.
    pub fn is_iterative(self) -> (r: bool)
        ensures
            r == !(self is Fbp || self is Bp),
    {
        !matches!(self, AstraMethod::Fbp | AstraMethod::Bp)
    }
}

/// The base names differ from one another and are shorter than the suffix of
/// the GPU variants.
proof fn lemma_base_names()
    ensures
        "_CUDA"@.len() == 5,
        forall|method: AstraMethod| (#[trigger] base_text(method)).len() < 5,
        forall|method: AstraMethod|
            method_with_base(#[trigger] base_text(method)) == Some(method),
{
    reveal_strlit("FBP");
    reveal_strlit("SIRT");
    reveal_strlit("SART");
    reveal_strlit("CGLS");
    reveal_strlit("BP");
    reveal_strlit("_CUDA");
    assert("FBP"@.len() == 3 && "SIRT"@.len() == 4 && "SART"@.len() == 4 && "CGLS"@.len() == 4);
    assert("BP"@.len() == 2);
    assert("SIRT"@[1] == 'I' && "SART"@[1] == 'A' && "CGLS"@[1] == 'G');
}

/// A name is read as an algorithm and variant exactly where it is their name.
proof fn lemma_method_named(name: Seq<char>)
    ensures
        match method_named(name) {
            Some((method, gpu)) => name == astra_text(method, gpu),
            None => forall|method: AstraMethod, gpu: bool|
                name != #[trigger] astra_text(method, gpu),
        },
{
    lemma_base_names();
    match crate::text::stripped(name, "_CUDA"@) {
        Some(base) => {
            assert(name =~= base + "_CUDA"@);
        },
        None => {},
    }
    if method_named(name) is None {
        assert forall|method: AstraMethod, gpu: bool| name != #[trigger] astra_text(method, gpu) by {
            if name == astra_text(method, gpu) {
                law_method_name_reads_back(method, gpu);
            }
        }
    }
}

/// Every algorithm's name, in either variant, is read back as that algorithm
/// and variant.
pub proof fn law_method_name_reads_back(method: AstraMethod, gpu: bool)
    ensures
        method_named(astra_text(method, gpu)) == Some((method, gpu)),
{
    lemma_base_names();
    let base = base_text(method);
    if gpu {
        let name = base + "_CUDA"@;
        assert(name.skip(name.len() - 5) =~= "_CUDA"@);
        assert(name.take(name.len() - 5) =~= base);
    }
}

/// No two algorithms or variants share a name.
pub proof fn law_method_names_differ(a: AstraMethod, a_gpu: bool, b: AstraMethod, b_gpu: bool)
    requires
        astra_text(a, a_gpu) == astra_text(b, b_gpu),
    ensures
        a == b,
        a_gpu == b_gpu,
{
    law_method_name_reads_back(a, a_gpu);
    law_method_name_reads_back(b, b_gpu);
}

/// The name of the CPU variant of an algorithm is its base name, that of the GPU
/// variant is the CPU variant's followed by `_CUDA`, and the base names are the
/// ones that astra knows.
pub proof fn law_variants_are_named_after_the_base(
    method: AstraMethod,
    base: &'static str,
    cpu: String,
    gpu: String,
)
    requires
        call_ensures(AstraMethod::base_name, (method,), base),
        call_ensures(AstraMethod::astra_name, (method, false), cpu),
        call_ensures(AstraMethod::astra_name, (method, true), gpu),
    ensures
        cpu@ == base@,
        gpu@ == cpu@ + "_CUDA"@,
        cpu@ == astra_text(method, false),
        gpu@ == astra_text(method, true),
        method is Fbp ==> base@ == "FBP"@,
        method is Sirt ==> base@ == "SIRT"@,
        method is Sart ==> base@ == "SART"@,
        method is Cgls ==> base@ == "CGLS"@,
        method is Bp ==> base@ == "BP"@,
{
}

/// A name is read as an algorithm and a variant exactly where it is the name that
/// these have.
pub proof fn law_name_is_read_as_its_owner(
    name: &str,
    r: Option<(AstraMethod, bool)>,
    method: AstraMethod,
    gpu: bool,
    written: String,
)
    requires
        call_ensures(AstraMethod::from_astra_name, (name,), r),
        call_ensures(AstraMethod::astra_name, (method, gpu), written),
    ensures
        r == Some((method, gpu)) <==> name@ == written@,
        r is Some ==> name@ == astra_text((r->0).0, (r->0).1),
        r is None ==> name@ != written@,
{
    if name@ == written@ {
        law_method_name_reads_back(method, gpu);
    }
}

/// A chooser shows an algorithm by its base name and what that stands for.
pub proof fn law_label_explains_the_base_name(
    method: AstraMethod,
    base: &'static str,
    label: &'static str,
)
    requires
        call_ensures(AstraMethod::base_name, (method,), base),
        call_ensures(AstraMethod::label, (method,), label),
    ensures
        label@ == base@ + " — "@ + (if base@ == "FBP"@ {
            "filtered back projection"@
        } else if base@ == "SIRT"@ {
            "simultaneous iterative"@
        } else if base@ == "SART"@ {
            "simultaneous algebraic"@
        } else if base@ == "CGLS"@ {
            "conjugate gradient"@
        } else {
            "plain back projection"@
        }),
{
    lemma_base_names();
    reveal_strlit("FBP");
    reveal_strlit("SIRT");
    reveal_strlit("SART");
    reveal_strlit("CGLS");
    reveal_strlit("BP");
    reveal_strlit(" — ");
    reveal_strlit("filtered back projection");
    reveal_strlit("simultaneous iterative");
    reveal_strlit("simultaneous algebraic");
    reveal_strlit("conjugate gradient");
    reveal_strlit("plain back projection");
    reveal_strlit("FBP — filtered back projection");
    reveal_strlit("SIRT — simultaneous iterative");
    reveal_strlit("SART — simultaneous algebraic");
    reveal_strlit("CGLS — conjugate gradient");
    reveal_strlit("BP — plain back projection");
    assert("SIRT"@[1] == 'I' && "SART"@[1] == 'A' && "CGLS"@[1] == 'G');
    assert("FBP — filtered back projection"@ =~= "FBP"@ + " — "@ + "filtered back projection"@);
    assert("SIRT — simultaneous iterative"@ =~= "SIRT"@ + " — "@ + "simultaneous iterative"@);
    assert("SART — simultaneous algebraic"@ =~= "SART"@ + " — "@ + "simultaneous algebraic"@);
    assert("CGLS — conjugate gradient"@ =~= "CGLS"@ + " — "@ + "conjugate gradient"@);
    assert("BP — plain back projection"@ =~= "BP"@ + " — "@ + "plain back projection"@);
}

/// The back projections, by whatever name, run without iterations; every other
/// algorithm iterates.
pub proof fn law_back_projections_do_not_iterate(
    method: AstraMethod,
    base: &'static str,
    r: bool,
)
    requires
        call_ensures(AstraMethod::base_name, (method,), base),
        call_ensures(AstraMethod::is_iterative, (method,), r),
    ensures
        r <==> base@ != "FBP"@ && base@ != "BP"@,
{
    lemma_base_names();
    reveal_strlit("FBP");
    reveal_strlit("SIRT");
    reveal_strlit("SART");
    reveal_strlit("CGLS");
    reveal_strlit("BP");
}

/// The list of algorithms holds each of them once, in the order of a chooser.
pub proof fn law_every_algorithm_is_listed_once(method: AstraMethod)
    ensures
        AstraMethod::ALL@.len() == 5,
        AstraMethod::ALL@.contains(method),
        AstraMethod::ALL@.no_duplicates(),
        AstraMethod::ALL@[0] is Fbp,
        AstraMethod::ALL@[1] is Sirt,
        AstraMethod::ALL@[2] is Sart,
        AstraMethod::ALL@[3] is Cgls,
        AstraMethod::ALL@[4] is Bp,
{
    let all = AstraMethod::ALL@;
    assert(all[0] is Fbp && all[1] is Sirt && all[2] is Sart && all[3] is Cgls && all[4] is Bp);
    assert(all.contains(all[0]) && all.contains(all[1]) && all.contains(all[2]));
    assert(all.contains(all[3]) && all.contains(all[4]));
}

} // verus!
