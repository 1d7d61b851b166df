//! The run itself: validate the options, decode the input text, filter
//! and transform the records, and render one of the two output formats.

use vstd::prelude::*;

use crate::decode::extract_problems;
use crate::decode::json_doc;
use crate::decode::json_elems;
use crate::decode::json_err_text;
use crate::decode::parse_document;
use crate::decode::records_of;
use crate::decode::value_elems;
use crate::filter::problem_matches;
use crate::filter::CliProblemApp;
use crate::problem::output_of;
use crate::problem::OutputView;
use crate::problem::ProblemOutput;
use crate::problem::ProblemView;
use crate::render::human_text;
use crate::render::json_text;
use crate::render::render_human;
use crate::render::render_json;

verus! {

/// Why a run failed. Every failure is fatal; nothing is retried.
#[derive(Debug)]
pub enum AppError {
    /// Neither a required nor an excluded term was supplied.
    Validation,
    /// The input text is not a well-formed array of valid records.
    Decode { detail: String },
}

/// The message a failed run reports.
pub open spec fn message_of(e: AppError) -> Seq<char> {
    match e {
        AppError::Validation => "Au moins un terme d'inclusion ou d'exclusion doit être spécifié"@,
        AppError::Decode { detail } => "Erreur lors du parsing du JSON: "@ + detail@,
    }
}

impl AppError {
    /// The human-readable description of the failure.
    pub fn message(&self) -> (r: String)
        ensures
            r@ == message_of(*self),
    {
        match self {
            AppError::Validation => String::from_str(
                "Au moins un terme d'inclusion ou d'exclusion doit être spécifié",
            ),
            AppError::Decode { detail } => {
                let mut s = String::from_str("Erreur lors du parsing du JSON: ");
                s.append(detail.as_str());
                s
            },
        }
    }
}

/// The decode failure's detail text for the given input text, nothing
/// when the text decodes cleanly.
pub open spec fn decode_failure(s: Seq<char>) -> Option<Seq<char>> {
    if json_doc(s) is None {
        Some(json_err_text(s))
    } else if json_elems(json_doc(s).unwrap()) is None {
        Some("le document n'est pas un tableau JSON"@)
    } else if records_of(json_elems(json_doc(s).unwrap()).unwrap()) is None {
        Some("un élément du tableau n'est pas un problème valide"@)
    } else {
        None
    }
}

/// The records held by an input text that decodes cleanly.
pub open spec fn decoded_records(s: Seq<char>) -> Seq<ProblemView> {
    records_of(json_elems(json_doc(s).unwrap()).unwrap()).unwrap()
}

/// The display images of the records that survive the filter, in their
/// original order.
pub open spec fn survivor_outputs(
    records: Seq<ProblemView>,
    required: Seq<Seq<char>>,
    excluded: Seq<Seq<char>>,
    ignore_case: bool,
) -> Seq<OutputView>
    decreases records.len(),
{
    if records.len() == 0 {
        Seq::empty()
    } else {
        let rest = survivor_outputs(records.drop_last(), required, excluded, ignore_case);
        if problem_matches(records.last().message, required, excluded, ignore_case) {
            rest.push(output_of(records.last()))
        } else {
            rest
        }
    }
}

/// What a successful run writes for the given options and records.
pub open spec fn output_text(cli: CliProblemApp, records: Seq<ProblemView>) -> Seq<char> {
    let outs = survivor_outputs(
        records,
        cli.required_terms.deep_view(),
        cli.excluded_terms.deep_view(),
        cli.ignore_case,
    );
    if cli.json {
        json_text(outs) + "\n"@
    } else {
        human_text(
            records.len(),
            cli.required_terms.deep_view(),
            cli.excluded_terms.deep_view(),
            cli.ignore_case,
            cli.count_only,
            outs,
        )
    }
}

/// Runs the whole pipeline on input text that has already been read:
/// fails when no filter term was supplied or when the text does not
/// decode, and otherwise returns the rendered output, JSON or
/// human-readable, with its trailing newline.
pub fn run_app(cli: &CliProblemApp, content: &str) -> (r: Result<String, AppError>)
    ensures
        (cli.required_terms@.len() == 0 && cli.excluded_terms@.len() == 0) <==> (r matches Err(
            AppError::Validation,
        )),
        (cli.required_terms@.len() > 0 || cli.excluded_terms@.len() > 0) ==> ((r is Err)
            <==> decode_failure(content@) is Some),
        (r matches Err(AppError::Decode { detail }) ==> decode_failure(content@) == Some(detail@)),
        (r matches Ok(out) ==> out@ == output_text(*cli, decoded_records(content@))),
{
    if !cli.terms_supplied() {
        return Err(AppError::Validation);
    }
    let doc = match parse_document(content) {
        Ok(v) => v,
        Err(m) => {
            return Err(AppError::Decode { detail: m });
        },
    };
    let elems = match value_elems(&doc) {
        Some(a) => a,
        None => {
            return Err(
                AppError::Decode {
                    detail: String::from_str("le document n'est pas un tableau JSON"),
                },
            );
        },
    };
    let problems = match extract_problems(elems) {
        Some(ps) => ps,
        None => {
            return Err(
                AppError::Decode {
                    detail: String::from_str("un élément du tableau n'est pas un problème valide"),
                },
            );
        },
    };
    assert(problems.deep_view() == decoded_records(content@));
    let ghost required = cli.required_terms.deep_view();
    let ghost excluded = cli.excluded_terms.deep_view();
    let mut outs: Vec<ProblemOutput> = Vec::new();
    let mut i: usize = 0;
    while i < problems.len()
        invariant
            i <= problems@.len(),
            required == cli.required_terms.deep_view(),
            excluded == cli.excluded_terms.deep_view(),
            outs.deep_view() == survivor_outputs(
                problems.deep_view().subrange(0, i as int),
                required,
                excluded,
                cli.ignore_case,
            ),
        decreases problems@.len() - i,
    {
        let ghost dv0 = outs.deep_view();
        let p = &problems[i];
        if cli.filter_problem(p) {
            outs.push(ProblemOutput::new(p));
            proof {
                assert(outs.deep_view() =~= dv0.push(output_of(p.deep_view())));
            }
        }
        proof {
            let pv = problems.deep_view();
            assert(pv.subrange(0, i + 1).drop_last() =~= pv.subrange(0, i as int));
            assert(pv.subrange(0, i + 1).last() == pv[i as int]);
        }
        i += 1;
    }
    proof {
        assert(problems.deep_view().subrange(0, problems@.len() as int) =~= problems.deep_view());
    }
    if cli.json {
        let mut s = render_json(&outs);
        s.append("\n");
        Ok(s)
    } else {
        Ok(render_human(problems.len(), cli, &outs))
    }
}

} // verus!
