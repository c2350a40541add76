//! The orchestration tool's container listing: framing its line-per-object
//! output as one JSON array, and finding a service's container in it.
use vstd::prelude::*;

verus! {

/// One container of a compose project: the service it runs and its name.
#[derive(Clone, Debug)]
pub struct ComposeContainer {
    pub service: String,
    pub name: String,
}

pub open spec fn newlines_to_commas(s: Seq<char>) -> Seq<char> {
    s.map_values(|c: char| if c == '\n' { ',' } else { c })
}

/// The listing output (one JSON object per line) as a JSON array: line
/// breaks become commas, the final character is dropped, and the whole is
/// put in brackets.
pub open spec fn listing_as_json_array(s: Seq<char>) -> Seq<char> {
    let r = newlines_to_commas(s);
    seq!['['] + (if r.len() > 0 { r.drop_last() } else { r }) + seq![']']
}

/// Frames the line-per-object listing output as one JSON array.
pub fn listing_to_json_array(output: &str) -> (r: String)
    ensures
        r@ == listing_as_json_array(output@),
{
    proof {
        reveal_strlit("[");
        reveal_strlit("]");
        reveal_strlit(",");
    }
    let n = output.unicode_len();
    let end: usize = if n > 0 { n - 1 } else { 0 };
    let ghost commas = newlines_to_commas(output@);
    let mut r = String::from_str("[");
    let mut i: usize = 0;
    while i < end
        invariant
            n == output@.len(),
            end <= n,
            end == (if n > 0 { n - 1 } else { 0 }),
            i <= end,
            commas == newlines_to_commas(output@),
            r@ == seq!['['] + commas.take(i as int),
        decreases end - i,
    {
        proof {
            reveal_strlit(",");
        }
        let ghost prev = r@;
        let c = output.get_char(i);
        if c == '\n' {
            r.append(",");
            assert(r@ =~= prev.push(','));
        } else {
            let piece = output.substring_char(i, i + 1);
            assert(piece@ =~= seq![c]);
            r.append(piece);
            assert(r@ =~= prev.push(c));
        }
        assert(commas[i as int] == (if c == '\n' { ',' } else { c }));
        assert(commas.take(i + 1) =~= commas.take(i as int).push(commas[i as int]));
        assert(r@ =~= seq!['['] + commas.take(i + 1));
        i = i + 1;
    }
    r.append("]");
    assert(if commas.len() > 0 { commas.drop_last() =~= commas.take(end as int) } else {
        commas =~= commas.take(end as int)
    });
    assert(r@ =~= listing_as_json_array(output@));
    r
}

/// The container of service `id`: the last entry listed for it.
pub open spec fn container_name_in(entries: Seq<ComposeContainer>, id: Seq<char>) -> Option<Seq<char>>
    decreases entries.len(),
{
    if entries.len() == 0 {
        None
    } else if entries.last().service@ == id {
        Some(entries.last().name@)
    } else {
        container_name_in(entries.drop_last(), id)
    }
}

/// Finds the container that runs service `service_id`.
pub fn container_name_for_service(entries: &Vec<ComposeContainer>, service_id: &str) -> (r: Option<String>)
    ensures
        match (r, container_name_in(entries@, service_id@)) {
            (Some(a), Some(b)) => a@ == b,
            (None, None) => true,
            _ => false,
        },
{
    let id = String::from_str(service_id);
    let mut i: usize = entries.len();
    assert(entries@.take(i as int) =~= entries@);
    while i > 0
        invariant
            i <= entries@.len(),
            id@ == service_id@,
            container_name_in(entries@, service_id@) == container_name_in(
                entries@.take(i as int),
                service_id@,
            ),
        decreases i,
    {
        i = i - 1;
        assert(entries@.take(i + 1).drop_last() =~= entries@.take(i as int));
        assert(entries@.take(i + 1).last() == entries@[i as int]);
        if entries[i].service == id {
            return Some(entries[i].name.clone());
        }
    }
    None
}

} // verus!
