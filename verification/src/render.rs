//! Rendering the surviving records: a pretty-printed JSON array with a
//! fixed field order, or a human-readable report whose table is drawn
//! by the tabled crate.

use vstd::prelude::*;

use crate::filter::CliProblemApp;
use crate::problem::OutputView;
use crate::problem::ProblemOutput;
use crate::text::dec_str;
use crate::text::digit_char;
use crate::text::joined;
use crate::text::join_all;
use crate::text::u64_to_string;

verus! {

/// The character for a single lowercase hexadecimal digit.
pub open spec fn hex_char(d: nat) -> char {
    if d < 10 {
        digit_char(d)
    } else if d == 10 {
        'a'
    } else if d == 11 {
        'b'
    } else if d == 12 {
        'c'
    } else if d == 13 {
        'd'
    } else if d == 14 {
        'e'
    } else {
        'f'
    }
}

/// How one character is written inside a JSON string: quote and
/// backslash get a backslash, control characters get a short escape or
/// a `\u00..` escape, everything else stands as itself.
pub open spec fn escaped_char(c: char) -> Seq<char> {
    if c == '"' {
        seq!['\\', '"']
    } else if c == '\\' {
        seq!['\\', '\\']
    } else if c == '\u{8}' {
        seq!['\\', 'b']
    } else if c == '\t' {
        seq!['\\', 't']
    } else if c == '\n' {
        seq!['\\', 'n']
    } else if c == '\u{c}' {
        seq!['\\', 'f']
    } else if c == '\r' {
        seq!['\\', 'r']
    } else if (c as u32) < 32 {
        seq!['\\', 'u', '0', '0', hex_char((c as u32 / 16) as nat), hex_char((c as u32 % 16) as nat)]
    } else {
        seq![c]
    }
}

/// A whole text as written inside a JSON string.
pub open spec fn escaped(s: Seq<char>) -> Seq<char>
    decreases s.len(),
{
    if s.len() == 0 {
        Seq::empty()
    } else {
        escaped(s.drop_last()) + escaped_char(s.last())
    }
}

fn hex_string(d: u64) -> (r: String)
    requires
        d < 16,
    ensures
        r@ == seq![hex_char(d as nat)],
{
    let s: &str = match d {
        0 => "0",
        1 => "1",
        2 => "2",
        3 => "3",
        4 => "4",
        5 => "5",
        6 => "6",
        7 => "7",
        8 => "8",
        9 => "9",
        10 => "a",
        11 => "b",
        12 => "c",
        13 => "d",
        14 => "e",
        _ => "f",
    };
    proof {
        reveal_strlit("0");
        reveal_strlit("1");
        reveal_strlit("2");
        reveal_strlit("3");
        reveal_strlit("4");
        reveal_strlit("5");
        reveal_strlit("6");
        reveal_strlit("7");
        reveal_strlit("8");
        reveal_strlit("9");
        reveal_strlit("a");
        reveal_strlit("b");
        reveal_strlit("c");
        reveal_strlit("d");
        reveal_strlit("e");
        reveal_strlit("f");
    }
    assert(s@ =~= seq![hex_char(d as nat)]);
    s.to_owned()
}

/// Escapes a text for inclusion inside a JSON string literal.
fn escape_json(s: &str) -> (r: String)
    ensures
        r@ == escaped(s@),
{
    let n = s.unicode_len();
    let mut out = String::new();
    let mut i: usize = 0;
    while i < n
        invariant
            n == s@.len(),
            i <= n,
            out@ == escaped(s@.subrange(0, i as int)),
        decreases n - i,
    {
        let c = s.get_char(i);
        if c == '"' {
            out.append("\\\"");
            proof {
                reveal_strlit("\\\"");
                assert("\\\""@ =~= escaped_char(c));
            }
        } else if c == '\\' {
            out.append("\\\\");
            proof {
                reveal_strlit("\\\\");
                assert("\\\\"@ =~= escaped_char(c));
            }
        } else if c == '\u{8}' {
            out.append("\\b");
            proof {
                reveal_strlit("\\b");
                assert("\\b"@ =~= escaped_char(c));
            }
        } else if c == '\t' {
            out.append("\\t");
            proof {
                reveal_strlit("\\t");
                assert("\\t"@ =~= escaped_char(c));
            }
        } else if c == '\n' {
            out.append("\\n");
            proof {
                reveal_strlit("\\n");
                assert("\\n"@ =~= escaped_char(c));
            }
        } else if c == '\u{c}' {
            out.append("\\f");
            proof {
                reveal_strlit("\\f");
                assert("\\f"@ =~= escaped_char(c));
            }
        } else if c == '\r' {
            out.append("\\r");
            proof {
                reveal_strlit("\\r");
                assert("\\r"@ =~= escaped_char(c));
            }
        } else if (c as u32) < 32 {
            let d = c as u32;
            out.append("\\u00");
            let hi = hex_string((d / 16) as u64);
            out.append(hi.as_str());
            let lo = hex_string((d % 16) as u64);
            out.append(lo.as_str());
            proof {
                reveal_strlit("\\u00");
                assert("\\u00"@ + hi@ + lo@ =~= escaped_char(c));
            }
        } else {
            let one = s.substring_char(i, i + 1);
            out.append(one);
            proof {
                assert(one@ =~= escaped_char(c));
            }
        }
        proof {
            assert(s@.subrange(0, i + 1).drop_last() =~= s@.subrange(0, i as int));
            assert(s@.subrange(0, i + 1).last() == s@[i as int]);
            assert(out@ =~= escaped(s@.subrange(0, i + 1)));
        }
        i += 1;
    }
    proof {
        assert(s@.subrange(0, n as int) =~= s@);
    }
    out
}

/// One record as a pretty-printed JSON object, indented for its place
/// inside the array, with the fixed field order resource, message, line.
pub open spec fn item_text(o: OutputView) -> Seq<char> {
    "  {\n    \"resource\": \""@ + escaped(o.resource) + "\",\n    \"message\": \""@ + escaped(
        o.message,
    ) + "\",\n    \"line\": "@ + dec_str(o.line as nat) + "\n  }"@
}

/// The records as JSON objects separated by commas.
pub open spec fn items_text(outs: Seq<OutputView>) -> Seq<char>
    decreases outs.len(),
{
    if outs.len() == 0 {
        Seq::empty()
    } else if outs.len() == 1 {
        item_text(outs[0])
    } else {
        items_text(outs.drop_last()) + ",\n"@ + item_text(outs.last())
    }
}

/// The whole output document in JSON mode: a pretty-printed array of
/// the surviving records, in order.
pub open spec fn json_text(outs: Seq<OutputView>) -> Seq<char> {
    if outs.len() == 0 {
        "[]"@
    } else {
        "[\n"@ + items_text(outs) + "\n]"@
    }
}

fn render_item(o: &ProblemOutput) -> (r: String)
    ensures
        r@ == item_text(o@),
{
    let mut s = String::from_str("  {\n    \"resource\": \"");
    s.append(escape_json(o.resource.as_str()).as_str());
    s.append("\",\n    \"message\": \"");
    s.append(escape_json(o.message.as_str()).as_str());
    s.append("\",\n    \"line\": ");
    s.append(u64_to_string(o.line as u64).as_str());
    s.append("\n  }");
    s
}

/// Serializes the surviving records as pretty-printed JSON.
pub fn render_json(outs: &Vec<ProblemOutput>) -> (r: String)
    ensures
        r@ == json_text(outs.deep_view()),
{
    if outs.len() == 0 {
        return String::from_str("[]");
    }
    let mut s = String::from_str("[\n");
    let mut i: usize = 0;
    while i < outs.len()
        invariant
            1 <= outs@.len(),
            i <= outs@.len(),
            s@ == "[\n"@ + items_text(outs.deep_view().subrange(0, i as int)),
        decreases outs@.len() - i,
    {
        if i > 0 {
            s.append(",\n");
        }
        s.append(render_item(&outs[i]).as_str());
        proof {
            let ov = outs.deep_view();
            assert(ov.subrange(0, i + 1).drop_last() =~= ov.subrange(0, i as int));
            assert(ov.subrange(0, i + 1).last() == ov[i as int]);
            if i == 0 {
                assert(items_text(ov.subrange(0, 1)) == item_text(ov[0]));
                assert(s@ =~= "[\n"@ + items_text(ov.subrange(0, i + 1)));
            } else {
                assert(s@ =~= "[\n"@ + items_text(ov.subrange(0, i + 1)));
            }
        }
        i += 1;
    }
    proof {
        assert(outs.deep_view().subrange(0, outs@.len() as int) =~= outs.deep_view());
    }
    s.append("\n]");
    s
}

/// What tabled renders for the given rows of cells; the text depends
/// on the rows alone.
pub uninterp spec fn table_text(rows: Seq<Seq<Seq<char>>>) -> Seq<char>;

/// Relies on tabled's builder::Builder (filled from the rows through
/// its FromIterator impl), Builder::build, and the Display impl of
/// tabled::Table: the grid drawn for exactly these rows, a function of
/// the rows alone.
#[verifier::external_body]
fn table_of_rows(rows: Vec<Vec<String>>) -> (r: String)
    ensures
        r@ == table_text(rows.deep_view()),
{
    tabled::builder::Builder::from_iter(rows).build().to_string()
}

/// The rows handed to tabled: the header row, then one row per record
/// with its resource, message and decimal line number.
pub open spec fn table_rows(outs: Seq<OutputView>) -> Seq<Seq<Seq<char>>> {
    seq![seq!["Resource"@, "Message"@, "Line"@]] + Seq::new(
        outs.len(),
        |k: int| seq![outs[k].resource, outs[k].message, dec_str(outs[k].line as nat)],
    )
}

/// Draws the table of surviving records with tabled.
pub fn render_table(outs: &Vec<ProblemOutput>) -> (r: String)
    ensures
        r@ == table_text(table_rows(outs.deep_view())),
{
    let mut rows: Vec<Vec<String>> = Vec::new();
    let mut header: Vec<String> = Vec::new();
    header.push("Resource".to_owned());
    header.push("Message".to_owned());
    header.push("Line".to_owned());
    rows.push(header);
    proof {
        assert(rows.deep_view()[0] =~= seq!["Resource"@, "Message"@, "Line"@]);
        assert(rows.deep_view() =~~= table_rows(outs.deep_view()).subrange(0, 1));
    }
    let mut i: usize = 0;
    while i < outs.len()
        invariant
            i <= outs@.len(),
            rows.deep_view() == table_rows(outs.deep_view()).subrange(0, i + 1),
        decreases outs@.len() - i,
    {
        let ghost dv0 = rows.deep_view();
        let mut row: Vec<String> = Vec::new();
        row.push(outs[i].resource.clone());
        row.push(outs[i].message.clone());
        row.push(u64_to_string(outs[i].line as u64));
        proof {
            let ov = outs.deep_view();
            assert(row.deep_view() =~= seq![
                ov[i as int].resource,
                ov[i as int].message,
                dec_str(ov[i as int].line as nat),
            ]);
        }
        let ghost rowdv = row.deep_view();
        rows.push(row);
        proof {
            let ov = outs.deep_view();
            assert(rows.deep_view() =~= dv0.push(rowdv));
            assert forall|k: int| 0 <= k < i + 2 implies rows.deep_view()[k] == table_rows(
                ov,
            ).subrange(0, i + 2)[k] by {
                if k == i + 1 {
                    assert(table_rows(ov)[k] == seq![
                        ov[i as int].resource,
                        ov[i as int].message,
                        dec_str(ov[i as int].line as nat),
                    ]);
                }
            }
            assert(rows.deep_view() =~= table_rows(ov).subrange(0, i + 2));
        }
        i += 1;
    }
    proof {
        assert(table_rows(outs.deep_view()).subrange(0, outs@.len() as int + 1) =~= table_rows(
            outs.deep_view(),
        ));
    }
    table_of_rows(rows)
}

/// The whole output document in human-readable mode: the counts, the
/// term lists that were supplied, then (unless only the counts were
/// asked for) the table of survivors or a notice that there are none.
pub open spec fn human_text(
    total: nat,
    required: Seq<Seq<char>>,
    excluded: Seq<Seq<char>>,
    ignore_case: bool,
    count_only: bool,
    outs: Seq<OutputView>,
) -> Seq<char> {
    let t1 = "Nombre total de problèmes: "@ + dec_str(total) + "\n"@;
    let t2 = if required.len() > 0 {
        t1 + "Termes à inclure: "@ + joined(required, ", "@) + "\n"@
    } else {
        t1
    };
    let t3 = if excluded.len() > 0 {
        t2 + "Termes à exclure: "@ + joined(excluded, ", "@) + "\n"@
    } else {
        t2
    };
    let t4 = if ignore_case {
        t3 + "Mode insensible à la casse activé\n"@
    } else {
        t3
    };
    let t5 = t4 + "\n"@ + "Nombre de problèmes filtrés: "@ + dec_str(outs.len()) + "\n"@;
    if count_only {
        t5
    } else if outs.len() == 0 {
        t5 + "\n"@ + "Aucun problème ne correspond aux critères de filtrage.\n"@
    } else {
        t5 + "\n"@ + table_text(table_rows(outs)) + "\n"@
    }
}

/// Writes the human-readable report.
pub fn render_human(total: usize, cli: &CliProblemApp, outs: &Vec<ProblemOutput>) -> (r: String)
    ensures
        r@ == human_text(
            total as nat,
            cli.required_terms.deep_view(),
            cli.excluded_terms.deep_view(),
            cli.ignore_case,
            cli.count_only,
            outs.deep_view(),
        ),
{
    let mut s = String::from_str("Nombre total de problèmes: ");
    s.append(u64_to_string(total as u64).as_str());
    s.append("\n");
    if cli.required_terms.len() > 0 {
        s.append("Termes à inclure: ");
        s.append(join_all(&cli.required_terms, ", ").as_str());
        s.append("\n");
    }
    if cli.excluded_terms.len() > 0 {
        s.append("Termes à exclure: ");
        s.append(join_all(&cli.excluded_terms, ", ").as_str());
        s.append("\n");
    }
    if cli.ignore_case {
        s.append("Mode insensible à la casse activé\n");
    }
    s.append("\n");
    s.append("Nombre de problèmes filtrés: ");
    s.append(u64_to_string(outs.len() as u64).as_str());
    s.append("\n");
    if cli.count_only {
        return s;
    }
    s.append("\n");
    if outs.len() == 0 {
        s.append("Aucun problème ne correspond aux critères de filtrage.\n");
    } else {
        s.append(render_table(outs).as_str());
        s.append("\n");
    }
    s
}

} // verus!
