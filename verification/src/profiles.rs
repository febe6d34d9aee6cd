//! The decisions of the `profiles` commands: the query parameters sent to
//! the API, how a profile is shown, the tables and page summaries, and the
//! name of an export's file.

use vstd::prelude::*;
use crate::json::{array_field, field, str_field_or, u64_field, JsonNumber, JsonValue};
use crate::text::{
    chars_from, chars_of, chars_until, concat, decimal, find_chars, find_str, i64_to_decimal, signed_decimal,
    string_from_chars, trim_quote_chars, trim_quotes, u64_to_decimal,
};

verus! {

/// The options of `profiles list`.
#[derive(Debug, Clone, PartialEq, Eq)]
pub struct ListOptions {
    pub gender: Option<String>,
    pub country: Option<String>,
    pub age_group: Option<String>,
    pub min_age: Option<u8>,
    pub max_age: Option<u8>,
    pub sort_by: Option<String>,
    pub order: Option<String>,
    pub page: u32,
    pub limit: u32,
}

/// A table to print: its column headers and its rows of cells.
#[derive(Debug, Clone, PartialEq, Eq)]
pub struct Table {
    pub headers: Vec<String>,
    pub rows: Vec<Vec<String>>,
}

/// What a page of profiles comes to.
#[derive(Debug, Clone, PartialEq, Eq)]
pub enum Listing {
    /// The reply holds no profiles.
    Empty,
    /// A summary line (`Showing page ..`) and the table of profiles.
    Page { summary: String, table: Table },
}

/// The message shown when a listing holds no profiles.
pub const NO_PROFILES_MESSAGE: &'static str = "No profiles found.";

/// The file an export is saved to when the reply does not name one.
pub const DEFAULT_EXPORT_FILENAME: &'static str = "profiles_export.csv";

/// The texts of a sequence of strings.
pub open spec fn string_views(v: Seq<String>) -> Seq<Seq<char>> {
    v.map_values(|s: String| s@)
}

/// The texts of the rows of a table.
pub open spec fn rows_views(rows: Seq<Vec<String>>) -> Seq<Seq<Seq<char>>> {
    rows.map_values(|r: Vec<String>| string_views(r@))
}

/// The texts of query parameters, as (name, value) pairs.
pub open spec fn pair_views(v: Seq<(String, String)>) -> Seq<(Seq<char>, Seq<char>)> {
    v.map_values(|p: (String, String)| (p.0@, p.1@))
}

/// The parameter `key` with a text value, when there is one.
pub open spec fn text_param(key: Seq<char>, v: Option<String>) -> Seq<(Seq<char>, Seq<char>)> {
    match v {
        Some(x) => seq![(key, x@)],
        None => Seq::empty(),
    }
}

/// The parameter `key` with a number value in decimal, when there is one.
pub open spec fn number_param(key: Seq<char>, v: Option<u8>) -> Seq<(Seq<char>, Seq<char>)> {
    match v {
        Some(n) => seq![(key, decimal(n as nat))],
        None => Seq::empty(),
    }
}

/// The filter and sort parameters common to `list` and `export`, in the
/// order they are sent; an option that is not given sends nothing.
pub open spec fn filter_params(
    gender: Option<String>,
    country: Option<String>,
    age_group: Option<String>,
    min_age: Option<u8>,
    max_age: Option<u8>,
    sort_by: Option<String>,
    order: Option<String>,
) -> Seq<(Seq<char>, Seq<char>)> {
    text_param("gender"@, gender) + text_param("country_id"@, country) + text_param(
        "age_group"@,
        age_group,
    ) + number_param("min_age"@, min_age) + number_param("max_age"@, max_age) + text_param(
        "sort_by"@,
        sort_by,
    ) + text_param("order"@, order)
}

/// The query parameters of `profiles list`: the page and its size, then
/// the filters.
pub open spec fn list_params(o: ListOptions) -> Seq<(Seq<char>, Seq<char>)> {
    seq![("page"@, decimal(o.page as nat)), ("limit"@, decimal(o.limit as nat))] + filter_params(
        o.gender,
        o.country,
        o.age_group,
        o.min_age,
        o.max_age,
        o.sort_by,
        o.order,
    )
}

fn push_text_param(q: &mut Vec<(String, String)>, key: &str, v: &Option<String>)
    ensures
        pair_views(final(q)@) == pair_views(old(q)@) + text_param(key@, *v),
{
    match v {
        Some(x) => {
            q.push((String::from_str(key), x.clone()));
            assert(pair_views(q@) =~= pair_views(old(q)@) + text_param(key@, *v));
        },
        None => {
            assert(pair_views(q@) =~= pair_views(old(q)@) + text_param(key@, *v));
        },
    }
}

fn push_number_param(q: &mut Vec<(String, String)>, key: &str, v: Option<u8>)
    ensures
        pair_views(final(q)@) == pair_views(old(q)@) + number_param(key@, v),
{
    match v {
        Some(n) => {
            q.push((String::from_str(key), u64_to_decimal(n as u64)));
            assert(pair_views(q@) =~= pair_views(old(q)@) + number_param(key@, v));
        },
        None => {
            assert(pair_views(q@) =~= pair_views(old(q)@) + number_param(key@, v));
        },
    }
}

fn push_filter_params(
    q: &mut Vec<(String, String)>,
    gender: &Option<String>,
    country: &Option<String>,
    age_group: &Option<String>,
    min_age: Option<u8>,
    max_age: Option<u8>,
    sort_by: &Option<String>,
    order: &Option<String>,
)
    ensures
        pair_views(final(q)@) == pair_views(old(q)@) + filter_params(
            *gender,
            *country,
            *age_group,
            min_age,
            max_age,
            *sort_by,
            *order,
        ),
{
    let ghost start = pair_views(q@);
    push_text_param(q, "gender", gender);
    push_text_param(q, "country_id", country);
    push_text_param(q, "age_group", age_group);
    push_number_param(q, "min_age", min_age);
    push_number_param(q, "max_age", max_age);
    push_text_param(q, "sort_by", sort_by);
    push_text_param(q, "order", order);
    assert(pair_views(q@) =~= start + filter_params(
        *gender,
        *country,
        *age_group,
        min_age,
        max_age,
        *sort_by,
        *order,
    ));
}

/// The query parameters that `profiles list` sends.
pub fn list_query(options: &ListOptions) -> (r: Vec<(String, String)>)
    ensures
        pair_views(r@) == list_params(*options),
{
    let mut q: Vec<(String, String)> = Vec::new();
    q.push((String::from_str("page"), u64_to_decimal(options.page as u64)));
    q.push((String::from_str("limit"), u64_to_decimal(options.limit as u64)));
    assert(pair_views(q@) =~= seq![
        ("page"@, decimal(options.page as nat)),
        ("limit"@, decimal(options.limit as nat)),
    ]);
    push_filter_params(
        &mut q,
        &options.gender,
        &options.country,
        &options.age_group,
        options.min_age,
        options.max_age,
        &options.sort_by,
        &options.order,
    );
    q
}

/// The query parameters that `profiles search` sends.
pub fn search_query(query: &str, page: u32, limit: u32) -> (r: Vec<(String, String)>)
    ensures
        pair_views(r@) == seq![
            ("q"@, query@),
            ("page"@, decimal(page as nat)),
            ("limit"@, decimal(limit as nat)),
        ],
{
    let mut q: Vec<(String, String)> = Vec::new();
    q.push((String::from_str("q"), String::from_str(query)));
    q.push((String::from_str("page"), u64_to_decimal(page as u64)));
    q.push((String::from_str("limit"), u64_to_decimal(limit as u64)));
    assert(pair_views(q@) =~= seq![
        ("q"@, query@),
        ("page"@, decimal(page as nat)),
        ("limit"@, decimal(limit as nat)),
    ]);
    q
}

/// The query parameters of `profiles export`: the format, then the filters.
pub open spec fn export_params(
    format: Seq<char>,
    gender: Option<String>,
    country: Option<String>,
    age_group: Option<String>,
    min_age: Option<u8>,
    max_age: Option<u8>,
    sort_by: Option<String>,
    order: Option<String>,
) -> Seq<(Seq<char>, Seq<char>)> {
    seq![("format"@, format)] + filter_params(
        gender,
        country,
        age_group,
        min_age,
        max_age,
        sort_by,
        order,
    )
}

/// The query parameters that `profiles export` sends.
pub fn export_query(
    format: &str,
    gender: &Option<String>,
    country: &Option<String>,
    age_group: &Option<String>,
    min_age: Option<u8>,
    max_age: Option<u8>,
    sort_by: &Option<String>,
    order: &Option<String>,
) -> (r: Vec<(String, String)>)
    ensures
        pair_views(r@) == export_params(
            format@,
            *gender,
            *country,
            *age_group,
            min_age,
            max_age,
            *sort_by,
            *order,
        ),
{
    let mut q: Vec<(String, String)> = Vec::new();
    q.push((String::from_str("format"), String::from_str(format)));
    assert(pair_views(q@) =~= seq![("format"@, format@)]);
    push_filter_params(&mut q, gender, country, age_group, min_age, max_age, sort_by, order);
    q
}

/// How a member of a profile is shown in a table cell: a string as it is,
/// a number and a boolean as JSON writes them, an array or object as its
/// compact JSON text, and `-` for `null` or a missing member.
pub open spec fn display_value(v: Option<JsonValue>) -> Seq<char> {
    match v {
        None => "-"@,
        Some(JsonValue::Null) => "-"@,
        Some(JsonValue::Bool(b)) => if b {
            "true"@
        } else {
            "false"@
        },
        Some(JsonValue::Number(JsonNumber::PosInt(n))) => decimal(n as nat),
        Some(JsonValue::Number(JsonNumber::NegInt(n))) => signed_decimal(n as int),
        Some(JsonValue::Number(JsonNumber::Float(t))) => t@,
        Some(JsonValue::Str(s)) => s@,
        Some(JsonValue::Array { text, .. }) => text@,
        Some(JsonValue::Object { text, .. }) => text@,
    }
}

/// The cell text of member `key` of `v`.
pub fn str_val(v: &JsonValue, key: &str) -> (r: String)
    ensures
        r@ == display_value(field(*v, key@)),
{
    match v.get(key) {
        None => String::from_str("-"),
        Some(x) => match x {
            JsonValue::Null => String::from_str("-"),
            JsonValue::Bool(b) => if *b {
                String::from_str("true")
            } else {
                String::from_str("false")
            },
            JsonValue::Number(JsonNumber::PosInt(n)) => u64_to_decimal(*n),
            JsonValue::Number(JsonNumber::NegInt(n)) => i64_to_decimal(*n),
            JsonValue::Number(JsonNumber::Float(t)) => t.clone(),
            JsonValue::Str(s) => s.clone(),
            JsonValue::Array { text, .. } => text.clone(),
            JsonValue::Object { text, .. } => text.clone(),
        },
    }
}

/// The column headers of a profile listing.
pub open spec fn listing_headers() -> Seq<Seq<char>> {
    seq!["ID"@, "Name"@, "Gender"@, "Age"@, "Age Group"@, "Country"@, "Created At"@]
}

/// The row of a profile in a listing.
pub open spec fn listing_row(p: JsonValue) -> Seq<Seq<char>> {
    seq![
        display_value(field(p, "id"@)),
        display_value(field(p, "name"@)),
        display_value(field(p, "gender"@)),
        display_value(field(p, "age"@)),
        display_value(field(p, "age_group"@)),
        display_value(field(p, "country_name"@)),
        display_value(field(p, "created_at"@)),
    ]
}

fn push_text(v: &mut Vec<String>, s: &str)
    ensures
        string_views(final(v)@) == string_views(old(v)@).push(s@),
{
    v.push(String::from_str(s));
    assert(string_views(v@) =~= string_views(old(v)@).push(s@));
}

fn push_cell(v: &mut Vec<String>, p: &JsonValue, key: &str)
    ensures
        string_views(final(v)@) == string_views(old(v)@).push(display_value(field(*p, key@))),
{
    v.push(str_val(p, key));
    assert(string_views(v@) =~= string_views(old(v)@).push(display_value(field(*p, key@))));
}

fn listing_header_cells() -> (r: Vec<String>)
    ensures
        string_views(r@) == listing_headers(),
{
    let mut h: Vec<String> = Vec::new();
    push_text(&mut h, "ID");
    push_text(&mut h, "Name");
    push_text(&mut h, "Gender");
    push_text(&mut h, "Age");
    push_text(&mut h, "Age Group");
    push_text(&mut h, "Country");
    push_text(&mut h, "Created At");
    assert(string_views(h@) =~= listing_headers());
    h
}

/// The cells of one profile in a listing.
pub fn profile_row(p: &JsonValue) -> (r: Vec<String>)
    ensures
        string_views(r@) == listing_row(*p),
{
    let mut row: Vec<String> = Vec::new();
    push_cell(&mut row, p, "id");
    push_cell(&mut row, p, "name");
    push_cell(&mut row, p, "gender");
    push_cell(&mut row, p, "age");
    push_cell(&mut row, p, "age_group");
    push_cell(&mut row, p, "country_name");
    push_cell(&mut row, p, "created_at");
    assert(string_views(row@) =~= listing_row(*p));
    row
}

/// The table of a listing: one row per profile, in order.
pub fn profile_table(profiles: &[JsonValue]) -> (t: Table)
    ensures
        string_views(t.headers@) == listing_headers(),
        rows_views(t.rows@) == profiles@.map_values(|p: JsonValue| listing_row(p)),
{
    let headers = listing_header_cells();
    let mut rows: Vec<Vec<String>> = Vec::new();
    let n = profiles.len();
    for i in 0..n
        invariant
            n == profiles@.len(),
            rows_views(rows@) == profiles@.take(i as int).map_values(|p: JsonValue| listing_row(p)),
    {
        let row = profile_row(&profiles[i]);
        let ghost before = rows_views(rows@);
        rows.push(row);
        assert(rows_views(rows@) =~= before.push(listing_row(profiles@[i as int])));
        assert(profiles@.take(i + 1).map_values(|p: JsonValue| listing_row(p)) =~= profiles@.take(
            i as int,
        ).map_values(|p: JsonValue| listing_row(p)).push(listing_row(profiles@[i as int])));
    }
    assert(profiles@.take(n as int) =~= profiles@);
    Table { headers, rows }
}

/// The row `label | value of key` of a profile's detail table.
pub open spec fn detail_row(p: JsonValue, label: Seq<char>, key: Seq<char>) -> Seq<Seq<char>> {
    seq![label, display_value(field(p, key))]
}

fn push_detail_row(rows: &mut Vec<Vec<String>>, p: &JsonValue, label: &str, key: &str)
    ensures
        rows_views(final(rows)@) == rows_views(old(rows)@).push(detail_row(*p, label@, key@)),
{
    let mut row: Vec<String> = Vec::new();
    push_text(&mut row, label);
    push_cell(&mut row, p, key);
    assert(string_views(row@) =~= detail_row(*p, label@, key@));
    rows.push(row);
    assert(rows_views(rows@) =~= rows_views(old(rows)@).push(detail_row(*p, label@, key@)));
}

fn field_value_headers() -> (r: Vec<String>)
    ensures
        string_views(r@) == seq!["Field"@, "Value"@],
{
    let mut h: Vec<String> = Vec::new();
    push_text(&mut h, "Field");
    push_text(&mut h, "Value");
    assert(string_views(h@) =~= seq!["Field"@, "Value"@]);
    h
}

/// The rows that `profiles get` shows of a profile.
pub open spec fn detail_rows(p: JsonValue) -> Seq<Seq<Seq<char>>> {
    seq![
        detail_row(p, "ID"@, "id"@),
        detail_row(p, "Name"@, "name"@),
        detail_row(p, "Gender"@, "gender"@),
        detail_row(p, "Gender Probability"@, "gender_probability"@),
        detail_row(p, "Age"@, "age"@),
        detail_row(p, "Age Group"@, "age_group"@),
        detail_row(p, "Country"@, "country_name"@),
        detail_row(p, "Country Code"@, "country_id"@),
        detail_row(p, "Country Probability"@, "country_probability"@),
        detail_row(p, "Created At"@, "created_at"@),
    ]
}

/// The `Field | Value` table that `profiles get` shows of the profile
/// under `data` in the reply.
pub fn detail_table(reply: &JsonValue) -> (t: Table)
    ensures
        string_views(t.headers@) == seq!["Field"@, "Value"@],
        rows_views(t.rows@) == detail_rows(
            match field(*reply, "data"@) {
                Some(p) => p,
                None => JsonValue::Null,
            },
        ),
{
    let null = JsonValue::Null;
    let p = match reply.get("data") {
        Some(p) => p,
        None => &null,
    };
    let mut rows: Vec<Vec<String>> = Vec::new();
    push_detail_row(&mut rows, p, "ID", "id");
    push_detail_row(&mut rows, p, "Name", "name");
    push_detail_row(&mut rows, p, "Gender", "gender");
    push_detail_row(&mut rows, p, "Gender Probability", "gender_probability");
    push_detail_row(&mut rows, p, "Age", "age");
    push_detail_row(&mut rows, p, "Age Group", "age_group");
    push_detail_row(&mut rows, p, "Country", "country_name");
    push_detail_row(&mut rows, p, "Country Code", "country_id");
    push_detail_row(&mut rows, p, "Country Probability", "country_probability");
    push_detail_row(&mut rows, p, "Created At", "created_at");
    assert(rows_views(rows@) =~= detail_rows(*p));
    Table { headers: field_value_headers(), rows }
}

/// The rows that `profiles create` shows of the new profile.
pub open spec fn created_rows(p: JsonValue) -> Seq<Seq<Seq<char>>> {
    seq![
        detail_row(p, "ID"@, "id"@),
        detail_row(p, "Name"@, "name"@),
        detail_row(p, "Gender"@, "gender"@),
        detail_row(p, "Age"@, "age"@),
        detail_row(p, "Country"@, "country_name"@),
    ]
}

/// The `Field | Value` table that `profiles create` shows of the profile
/// under `data` in the reply.
pub fn created_table(reply: &JsonValue) -> (t: Table)
    ensures
        string_views(t.headers@) == seq!["Field"@, "Value"@],
        rows_views(t.rows@) == created_rows(
            match field(*reply, "data"@) {
                Some(p) => p,
                None => JsonValue::Null,
            },
        ),
{
    let null = JsonValue::Null;
    let p = match reply.get("data") {
        Some(p) => p,
        None => &null,
    };
    let mut rows: Vec<Vec<String>> = Vec::new();
    push_detail_row(&mut rows, p, "ID", "id");
    push_detail_row(&mut rows, p, "Name", "name");
    push_detail_row(&mut rows, p, "Gender", "gender");
    push_detail_row(&mut rows, p, "Age", "age");
    push_detail_row(&mut rows, p, "Country", "country_name");
    assert(rows_views(rows@) =~= created_rows(*p));
    Table { headers: field_value_headers(), rows }
}

/// The profiles of a listing reply: the items of `data` when it is an
/// array, else none.
pub open spec fn listing_items(reply: JsonValue) -> Seq<JsonValue> {
    match array_field(reply, "data"@) {
        Some(items) => items,
        None => Seq::empty(),
    }
}

/// The summary line of a listing page: `Showing page P of N (T total)`,
/// where `N` is `total_pages` (1 when missing) and `T` is `total` (0 when
/// missing).
pub open spec fn page_summary(page: u32, reply: JsonValue) -> Seq<char> {
    let total = match u64_field(reply, "total"@) {
        Some(t) => t,
        None => 0,
    };
    let pages = match u64_field(reply, "total_pages"@) {
        Some(t) => t,
        None => 1,
    };
    "Showing page "@ + decimal(page as nat) + " of "@ + decimal(pages as nat) + " ("@ + decimal(
        total as nat,
    ) + " total)"@
}

/// What a `list` or `search` reply for page `page` comes to.
pub fn listing(page: u32, reply: &JsonValue) -> (r: Listing)
    ensures
        listing_items(*reply).len() == 0 <==> r == Listing::Empty,
        r matches Listing::Page { summary, table } ==> summary@ == page_summary(page, *reply)
            && string_views(table.headers@) == listing_headers() && rows_views(table.rows@)
            == listing_items(*reply).map_values(|p: JsonValue| listing_row(p)),
{
    let items: &[JsonValue] = match reply.get("data") {
        Some(d) => match d.as_array() {
            Some(items) => items.as_slice(),
            None => &[],
        },
        None => &[],
    };
    assert(items@ == listing_items(*reply));
    if items.len() == 0 {
        return Listing::Empty;
    }
    let total: u64 = match reply.get("total") {
        Some(t) => match t.as_u64() {
            Some(n) => n,
            None => 0,
        },
        None => 0,
    };
    let pages: u64 = match reply.get("total_pages") {
        Some(t) => match t.as_u64() {
            Some(n) => n,
            None => 1,
        },
        None => 1,
    };
    let mut summary = String::from_str("Showing page ");
    summary.append(u64_to_decimal(page as u64).as_str());
    summary.append(" of ");
    summary.append(u64_to_decimal(pages).as_str());
    summary.append(" (");
    summary.append(u64_to_decimal(total).as_str());
    summary.append(" total)");
    let table = profile_table(items);
    Listing::Page { summary, table }
}

/// The text after the first `filename=` of a `Content-Disposition` value,
/// up to the next `filename=`, without surrounding `"`; when the value is
/// missing or has no `filename=`, the default file name.
pub open spec fn export_filename_spec(header: Option<Seq<char>>) -> Seq<char> {
    let pat = "filename="@;
    match header {
        None => DEFAULT_EXPORT_FILENAME@,
        Some(h) => match find_str(h, pat) {
            None => DEFAULT_EXPORT_FILENAME@,
            Some(i) => {
                let rest = h.skip(i + pat.len());
                let piece = match find_str(rest, pat) {
                    Some(j) => rest.take(j),
                    None => rest,
                };
                trim_quotes(piece)
            },
        },
    }
}

/// The name of the file that an export is saved to, from the reply's
/// `Content-Disposition` header (`None` when it is missing or not text).
pub fn export_filename(content_disposition: Option<&str>) -> (r: String)
    ensures
        r@ == export_filename_spec(
            match content_disposition {
                Some(h) => Some(h@),
                None => None,
            },
        ),
{
    match content_disposition {
        None => String::from_str(DEFAULT_EXPORT_FILENAME),
        Some(h) => {
            let hs = chars_of(h);
            let pat = chars_of("filename=");
            proof {
                reveal_strlit("filename=");
            }
            match find_chars(hs.as_slice(), pat.as_slice()) {
                None => String::from_str(DEFAULT_EXPORT_FILENAME),
                Some(i) => {
                    let hlen = hs.len();
                    assert(i + pat@.len() <= hlen);
                    let after = i + pat.len();
                    let rest = chars_from(hs.as_slice(), after);
                    let piece = match find_chars(rest.as_slice(), pat.as_slice()) {
                        Some(j) => chars_until(rest.as_slice(), j),
                        None => rest,
                    };
                    let trimmed = trim_quote_chars(piece.as_slice());
                    string_from_chars(trimmed.as_slice())
                },
            }
        },
    }
}

/// The message of a failed export: the `message` of the reply's JSON body
/// (`None` when it is not JSON), or `Export failed`.
pub fn export_error_message(body: &Option<JsonValue>) -> (r: String)
    ensures
        r@ == match *body {
            Some(v) => str_field_or(v, "message"@, "Export failed"@),
            None => "Export failed"@,
        },
{
    match body {
        Some(v) => v.str_field_or("message", "Export failed"),
        None => String::from_str("Export failed"),
    }
}

/// The message shown after an export: `Exported to <file>`.
pub fn export_success_message(filename: &str) -> (r: String)
    ensures
        r@ == "Exported to "@ + filename@,
{
    concat("Exported to ", filename)
}

/// The API path of one profile: `/api/profiles/<id>`.
pub fn profile_path(id: &str) -> (r: String)
    ensures
        r@ == "/api/profiles/"@ + id@,
{
    concat("/api/profiles/", id)
}

/// `export` sends the filters of `list` in the same order; where `list`
/// sends the page and its size, `export` sends the format instead, so it
/// always covers every matching profile.
pub proof fn lemma_export_shares_list_filters(options: ListOptions, format: Seq<char>)
    ensures
        list_params(options).skip(2) == export_params(
            format,
            options.gender,
            options.country,
            options.age_group,
            options.min_age,
            options.max_age,
            options.sort_by,
            options.order,
        ).skip(1),
        export_params(
            format,
            options.gender,
            options.country,
            options.age_group,
            options.min_age,
            options.max_age,
            options.sort_by,
            options.order,
        )[0] == ("format"@, format),
{
    let f = filter_params(
        options.gender,
        options.country,
        options.age_group,
        options.min_age,
        options.max_age,
        options.sort_by,
        options.order,
    );
    assert(list_params(options).skip(2) =~= f);
    assert(export_params(
        format,
        options.gender,
        options.country,
        options.age_group,
        options.min_age,
        options.max_age,
        options.sort_by,
        options.order,
    ).skip(1) =~= f);
}

/// The pairs of `params` whose name is `key`, in order.
pub open spec fn pairs_named(params: Seq<(Seq<char>, Seq<char>)>, key: Seq<char>) -> Seq<
    (Seq<char>, Seq<char>),
>
    decreases params.len(),
{
    if params.len() == 0 {
        Seq::empty()
    } else if params.last().0 == key {
        pairs_named(params.drop_last(), key).push(params.last())
    } else {
        pairs_named(params.drop_last(), key)
    }
}

proof fn lemma_pairs_named_add(
    a: Seq<(Seq<char>, Seq<char>)>,
    b: Seq<(Seq<char>, Seq<char>)>,
    key: Seq<char>,
)
    ensures
        pairs_named(a + b, key) == pairs_named(a, key) + pairs_named(b, key),
    decreases b.len(),
{
    if b.len() == 0 {
        assert(a + b =~= a);
        assert(pairs_named(a, key) + pairs_named(b, key) =~= pairs_named(a, key));
    } else {
        lemma_pairs_named_add(a, b.drop_last(), key);
        assert((a + b).drop_last() =~= a + b.drop_last());
        assert((a + b).last() == b.last());
        if b.last().0 == key {
            assert(pairs_named(a, key) + pairs_named(b.drop_last(), key).push(b.last())
                =~= (pairs_named(a, key) + pairs_named(b.drop_last(), key)).push(b.last()));
        }
    }
}

proof fn lemma_pairs_named_one(k: Seq<char>, v: Seq<char>, key: Seq<char>)
    ensures
        pairs_named(seq![(k, v)], key) == if k == key {
            seq![(k, v)]
        } else {
            Seq::<(Seq<char>, Seq<char>)>::empty()
        },
{
    let one = seq![(k, v)];
    assert(one.len() == 1);
    assert(one.last() == (k, v));
    assert(one.drop_last() =~= Seq::<(Seq<char>, Seq<char>)>::empty());
    assert(pairs_named(one.drop_last(), key) =~= Seq::<(Seq<char>, Seq<char>)>::empty());
    assert(Seq::<(Seq<char>, Seq<char>)>::empty().push((k, v)) =~= one);
}

proof fn lemma_text_param_named(k: Seq<char>, v: Option<String>, key: Seq<char>)
    ensures
        pairs_named(text_param(k, v), key) == if k == key {
            text_param(k, v)
        } else {
            Seq::<(Seq<char>, Seq<char>)>::empty()
        },
{
    if let Some(x) = v {
        lemma_pairs_named_one(k, x@, key);
    }
}

proof fn lemma_number_param_named(k: Seq<char>, v: Option<u8>, key: Seq<char>)
    ensures
        pairs_named(number_param(k, v), key) == if k == key {
            number_param(k, v)
        } else {
            Seq::<(Seq<char>, Seq<char>)>::empty()
        },
{
    if let Some(x) = v {
        lemma_pairs_named_one(k, decimal(x as nat), key);
    }
}

proof fn lemma_filter_params_named(
    gender: Option<String>,
    country: Option<String>,
    age_group: Option<String>,
    min_age: Option<u8>,
    max_age: Option<u8>,
    sort_by: Option<String>,
    order: Option<String>,
    key: Seq<char>,
)
    ensures
        pairs_named(
            filter_params(gender, country, age_group, min_age, max_age, sort_by, order),
            key,
        ) == (if "gender"@ == key {
            text_param("gender"@, gender)
        } else {
            Seq::empty()
        }) + (if "country_id"@ == key {
            text_param("country_id"@, country)
        } else {
            Seq::empty()
        }) + (if "age_group"@ == key {
            text_param("age_group"@, age_group)
        } else {
            Seq::empty()
        }) + (if "min_age"@ == key {
            number_param("min_age"@, min_age)
        } else {
            Seq::empty()
        }) + (if "max_age"@ == key {
            number_param("max_age"@, max_age)
        } else {
            Seq::empty()
        }) + (if "sort_by"@ == key {
            text_param("sort_by"@, sort_by)
        } else {
            Seq::empty()
        }) + (if "order"@ == key {
            text_param("order"@, order)
        } else {
            Seq::empty()
        }),
{
    let a1 = text_param("gender"@, gender);
    let a2 = text_param("country_id"@, country);
    let a3 = text_param("age_group"@, age_group);
    let a4 = number_param("min_age"@, min_age);
    let a5 = number_param("max_age"@, max_age);
    let a6 = text_param("sort_by"@, sort_by);
    let a7 = text_param("order"@, order);
    lemma_pairs_named_add(a1, a2, key);
    lemma_pairs_named_add(a1 + a2, a3, key);
    lemma_pairs_named_add(a1 + a2 + a3, a4, key);
    lemma_pairs_named_add(a1 + a2 + a3 + a4, a5, key);
    lemma_pairs_named_add(a1 + a2 + a3 + a4 + a5, a6, key);
    lemma_pairs_named_add(a1 + a2 + a3 + a4 + a5 + a6, a7, key);
    lemma_text_param_named("gender"@, gender, key);
    lemma_text_param_named("country_id"@, country, key);
    lemma_text_param_named("age_group"@, age_group, key);
    lemma_number_param_named("min_age"@, min_age, key);
    lemma_number_param_named("max_age"@, max_age, key);
    lemma_text_param_named("sort_by"@, sort_by, key);
    lemma_text_param_named("order"@, order, key);
}

/// Each option of `profiles list` is sent on its own: the pairs named
/// after an option are the one pair of that option when it is given and
/// none when it is not, whatever the other options are; the page and its
/// size are always sent once, in decimal.
pub proof fn lemma_list_sends_each_option_alone(o: ListOptions)
    ensures
        pairs_named(list_params(o), "page"@) == seq![("page"@, decimal(o.page as nat))],
        pairs_named(list_params(o), "limit"@) == seq![("limit"@, decimal(o.limit as nat))],
        pairs_named(list_params(o), "gender"@) == (match o.gender {
            Some(x) => seq![("gender"@, x@)],
            None => Seq::empty(),
        }),
        pairs_named(list_params(o), "country_id"@) == (match o.country {
            Some(x) => seq![("country_id"@, x@)],
            None => Seq::empty(),
        }),
        pairs_named(list_params(o), "age_group"@) == (match o.age_group {
            Some(x) => seq![("age_group"@, x@)],
            None => Seq::empty(),
        }),
        pairs_named(list_params(o), "min_age"@) == (match o.min_age {
            Some(x) => seq![("min_age"@, decimal(x as nat))],
            None => Seq::empty(),
        }),
        pairs_named(list_params(o), "max_age"@) == (match o.max_age {
            Some(x) => seq![("max_age"@, decimal(x as nat))],
            None => Seq::empty(),
        }),
        pairs_named(list_params(o), "sort_by"@) == (match o.sort_by {
            Some(x) => seq![("sort_by"@, x@)],
            None => Seq::empty(),
        }),
        pairs_named(list_params(o), "order"@) == (match o.order {
            Some(x) => seq![("order"@, x@)],
            None => Seq::empty(),
        }),
{
    reveal_strlit("page");
    reveal_strlit("limit");
    reveal_strlit("gender");
    reveal_strlit("country_id");
    reveal_strlit("age_group");
    reveal_strlit("min_age");
    reveal_strlit("max_age");
    reveal_strlit("sort_by");
    reveal_strlit("order");
    let empty = Seq::<(Seq<char>, Seq<char>)>::empty();
    assert("page"@.len() == 4 && "limit"@.len() == 5 && "gender"@.len() == 6);
    assert("country_id"@.len() == 10 && "age_group"@.len() == 9 && "min_age"@.len() == 7);
    assert("max_age"@.len() == 7 && "sort_by"@.len() == 7 && "order"@.len() == 5);
    assert("min_age"@[1] != "max_age"@[1] && "min_age"@[0] != "sort_by"@[0]);
    assert("max_age"@[0] != "sort_by"@[0] && "limit"@[0] != "order"@[0]);
    lemma_list_sends_each_option_alone_key(o, "page"@);
    lemma_filter_params_named(o.gender, o.country, o.age_group, o.min_age, o.max_age, o.sort_by, o.order, "page"@);
    assert(pairs_named(list_params(o), "page"@) =~= seq![("page"@, decimal(o.page as nat))]);
    lemma_list_sends_each_option_alone_key(o, "limit"@);
    lemma_filter_params_named(o.gender, o.country, o.age_group, o.min_age, o.max_age, o.sort_by, o.order, "limit"@);
    assert(pairs_named(list_params(o), "limit"@) =~= seq![("limit"@, decimal(o.limit as nat))]);
    lemma_list_sends_each_option_alone_key(o, "gender"@);
    lemma_filter_params_named(o.gender, o.country, o.age_group, o.min_age, o.max_age, o.sort_by, o.order, "gender"@);
    match o.gender {
        Some(x) => assert(pairs_named(list_params(o), "gender"@) =~= seq![("gender"@, x@)]),
        None => assert(pairs_named(list_params(o), "gender"@) =~= empty),
    }
    lemma_list_sends_each_option_alone_key(o, "country_id"@);
    lemma_filter_params_named(o.gender, o.country, o.age_group, o.min_age, o.max_age, o.sort_by, o.order, "country_id"@);
    match o.country {
        Some(x) => assert(pairs_named(list_params(o), "country_id"@) =~= seq![("country_id"@, x@)]),
        None => assert(pairs_named(list_params(o), "country_id"@) =~= empty),
    }
    lemma_list_sends_each_option_alone_key(o, "age_group"@);
    lemma_filter_params_named(o.gender, o.country, o.age_group, o.min_age, o.max_age, o.sort_by, o.order, "age_group"@);
    match o.age_group {
        Some(x) => assert(pairs_named(list_params(o), "age_group"@) =~= seq![("age_group"@, x@)]),
        None => assert(pairs_named(list_params(o), "age_group"@) =~= empty),
    }
    lemma_list_sends_each_option_alone_key(o, "min_age"@);
    lemma_filter_params_named(o.gender, o.country, o.age_group, o.min_age, o.max_age, o.sort_by, o.order, "min_age"@);
    match o.min_age {
        Some(x) => assert(pairs_named(list_params(o), "min_age"@) =~= seq![("min_age"@, decimal(x as nat))]),
        None => assert(pairs_named(list_params(o), "min_age"@) =~= empty),
    }
    lemma_list_sends_each_option_alone_key(o, "max_age"@);
    lemma_filter_params_named(o.gender, o.country, o.age_group, o.min_age, o.max_age, o.sort_by, o.order, "max_age"@);
    match o.max_age {
        Some(x) => assert(pairs_named(list_params(o), "max_age"@) =~= seq![("max_age"@, decimal(x as nat))]),
        None => assert(pairs_named(list_params(o), "max_age"@) =~= empty),
    }
    lemma_list_sends_each_option_alone_key(o, "sort_by"@);
    lemma_filter_params_named(o.gender, o.country, o.age_group, o.min_age, o.max_age, o.sort_by, o.order, "sort_by"@);
    match o.sort_by {
        Some(x) => assert(pairs_named(list_params(o), "sort_by"@) =~= seq![("sort_by"@, x@)]),
        None => assert(pairs_named(list_params(o), "sort_by"@) =~= empty),
    }
    lemma_list_sends_each_option_alone_key(o, "order"@);
    lemma_filter_params_named(o.gender, o.country, o.age_group, o.min_age, o.max_age, o.sort_by, o.order, "order"@);
    match o.order {
        Some(x) => assert(pairs_named(list_params(o), "order"@) =~= seq![("order"@, x@)]),
        None => assert(pairs_named(list_params(o), "order"@) =~= empty),
    }
}

proof fn lemma_list_sends_each_option_alone_key(o: ListOptions, key: Seq<char>)
    ensures
        pairs_named(list_params(o), key) == pairs_named(seq![("page"@, decimal(o.page as nat))], key)
            + pairs_named(seq![("limit"@, decimal(o.limit as nat))], key) + pairs_named(
            filter_params(o.gender, o.country, o.age_group, o.min_age, o.max_age, o.sort_by, o.order),
            key,
        ),
        pairs_named(seq![("page"@, decimal(o.page as nat))], key) == if "page"@ == key {
            seq![("page"@, decimal(o.page as nat))]
        } else {
            Seq::<(Seq<char>, Seq<char>)>::empty()
        },
        pairs_named(seq![("limit"@, decimal(o.limit as nat))], key) == if "limit"@ == key {
            seq![("limit"@, decimal(o.limit as nat))]
        } else {
            Seq::<(Seq<char>, Seq<char>)>::empty()
        },
{
    let p = seq![("page"@, decimal(o.page as nat))];
    let l = seq![("limit"@, decimal(o.limit as nat))];
    let f = filter_params(o.gender, o.country, o.age_group, o.min_age, o.max_age, o.sort_by, o.order);
    assert(list_params(o) =~= p + l + f);
    lemma_pairs_named_add(p, l, key);
    lemma_pairs_named_add(p + l, f, key);
    lemma_pairs_named_one("page"@, decimal(o.page as nat), key);
    lemma_pairs_named_one("limit"@, decimal(o.limit as nat), key);
    lemma_filter_params_named(o.gender, o.country, o.age_group, o.min_age, o.max_age, o.sort_by, o.order, key);
}


/// Each option of `profiles export` is sent on its own, as for `list`:
/// the format once, no page or page size (an export covers every matching
/// profile), and for each filter its one pair when it is given and none
/// when it is not, whatever the other options are.
pub proof fn lemma_export_sends_each_option_alone(
    format: Seq<char>,
    gender: Option<String>,
    country: Option<String>,
    age_group: Option<String>,
    min_age: Option<u8>,
    max_age: Option<u8>,
    sort_by: Option<String>,
    order: Option<String>,
)
    ensures
        pairs_named(export_params(format, gender, country, age_group, min_age, max_age, sort_by, order), "format"@) == seq![("format"@, format)],
        pairs_named(export_params(format, gender, country, age_group, min_age, max_age, sort_by, order), "page"@) == Seq::<(Seq<char>, Seq<char>)>::empty(),
        pairs_named(export_params(format, gender, country, age_group, min_age, max_age, sort_by, order), "limit"@) == Seq::<(Seq<char>, Seq<char>)>::empty(),
        pairs_named(export_params(format, gender, country, age_group, min_age, max_age, sort_by, order), "gender"@) == (match gender {
            Some(x) => seq![("gender"@, x@)],
            None => Seq::empty(),
        }),
        pairs_named(export_params(format, gender, country, age_group, min_age, max_age, sort_by, order), "country_id"@) == (match country {
            Some(x) => seq![("country_id"@, x@)],
            None => Seq::empty(),
        }),
        pairs_named(export_params(format, gender, country, age_group, min_age, max_age, sort_by, order), "age_group"@) == (match age_group {
            Some(x) => seq![("age_group"@, x@)],
            None => Seq::empty(),
        }),
        pairs_named(export_params(format, gender, country, age_group, min_age, max_age, sort_by, order), "min_age"@) == (match min_age {
            Some(x) => seq![("min_age"@, decimal(x as nat))],
            None => Seq::empty(),
        }),
        pairs_named(export_params(format, gender, country, age_group, min_age, max_age, sort_by, order), "max_age"@) == (match max_age {
            Some(x) => seq![("max_age"@, decimal(x as nat))],
            None => Seq::empty(),
        }),
        pairs_named(export_params(format, gender, country, age_group, min_age, max_age, sort_by, order), "sort_by"@) == (match sort_by {
            Some(x) => seq![("sort_by"@, x@)],
            None => Seq::empty(),
        }),
        pairs_named(export_params(format, gender, country, age_group, min_age, max_age, sort_by, order), "order"@) == (match order {
            Some(x) => seq![("order"@, x@)],
            None => Seq::empty(),
        }),
{
    reveal_strlit("format");
    reveal_strlit("page");
    reveal_strlit("limit");
    reveal_strlit("gender");
    reveal_strlit("country_id");
    reveal_strlit("age_group");
    reveal_strlit("min_age");
    reveal_strlit("max_age");
    reveal_strlit("sort_by");
    reveal_strlit("order");
    let empty = Seq::<(Seq<char>, Seq<char>)>::empty();
    assert("format"@.len() == 6 && "page"@.len() == 4 && "limit"@.len() == 5 && "gender"@.len() == 6);
    assert("country_id"@.len() == 10 && "age_group"@.len() == 9 && "min_age"@.len() == 7);
    assert("max_age"@.len() == 7 && "sort_by"@.len() == 7 && "order"@.len() == 5);
    assert("min_age"@[1] != "max_age"@[1] && "min_age"@[0] != "sort_by"@[0]);
    assert("max_age"@[0] != "sort_by"@[0] && "limit"@[0] != "order"@[0] && "format"@[0] != "gender"@[0]);
    let fp = filter_params(gender, country, age_group, min_age, max_age, sort_by, order);
    let e = export_params(format, gender, country, age_group, min_age, max_age, sort_by, order);
    assert(e == seq![("format"@, format)] + fp);
    lemma_pairs_named_add(seq![("format"@, format)], fp, "format"@);
    lemma_pairs_named_one("format"@, format, "format"@);
    lemma_filter_params_named(gender, country, age_group, min_age, max_age, sort_by, order, "format"@);
    assert(pairs_named(e, "format"@) =~= seq![("format"@, format)]);
    lemma_pairs_named_add(seq![("format"@, format)], fp, "page"@);
    lemma_pairs_named_one("format"@, format, "page"@);
    lemma_filter_params_named(gender, country, age_group, min_age, max_age, sort_by, order, "page"@);
    assert(pairs_named(e, "page"@) =~= empty);
    lemma_pairs_named_add(seq![("format"@, format)], fp, "limit"@);
    lemma_pairs_named_one("format"@, format, "limit"@);
    lemma_filter_params_named(gender, country, age_group, min_age, max_age, sort_by, order, "limit"@);
    assert(pairs_named(e, "limit"@) =~= empty);
    lemma_pairs_named_add(seq![("format"@, format)], fp, "gender"@);
    lemma_pairs_named_one("format"@, format, "gender"@);
    lemma_filter_params_named(gender, country, age_group, min_age, max_age, sort_by, order, "gender"@);
    match gender {
        Some(x) => assert(pairs_named(e, "gender"@) =~= seq![("gender"@, x@)]),
        None => assert(pairs_named(e, "gender"@) =~= empty),
    }
    lemma_pairs_named_add(seq![("format"@, format)], fp, "country_id"@);
    lemma_pairs_named_one("format"@, format, "country_id"@);
    lemma_filter_params_named(gender, country, age_group, min_age, max_age, sort_by, order, "country_id"@);
    match country {
        Some(x) => assert(pairs_named(e, "country_id"@) =~= seq![("country_id"@, x@)]),
        None => assert(pairs_named(e, "country_id"@) =~= empty),
    }
    lemma_pairs_named_add(seq![("format"@, format)], fp, "age_group"@);
    lemma_pairs_named_one("format"@, format, "age_group"@);
    lemma_filter_params_named(gender, country, age_group, min_age, max_age, sort_by, order, "age_group"@);
    match age_group {
        Some(x) => assert(pairs_named(e, "age_group"@) =~= seq![("age_group"@, x@)]),
        None => assert(pairs_named(e, "age_group"@) =~= empty),
    }
    lemma_pairs_named_add(seq![("format"@, format)], fp, "min_age"@);
    lemma_pairs_named_one("format"@, format, "min_age"@);
    lemma_filter_params_named(gender, country, age_group, min_age, max_age, sort_by, order, "min_age"@);
    match min_age {
        Some(x) => assert(pairs_named(e, "min_age"@) =~= seq![("min_age"@, decimal(x as nat))]),
        None => assert(pairs_named(e, "min_age"@) =~= empty),
    }
    lemma_pairs_named_add(seq![("format"@, format)], fp, "max_age"@);
    lemma_pairs_named_one("format"@, format, "max_age"@);
    lemma_filter_params_named(gender, country, age_group, min_age, max_age, sort_by, order, "max_age"@);
    match max_age {
        Some(x) => assert(pairs_named(e, "max_age"@) =~= seq![("max_age"@, decimal(x as nat))]),
        None => assert(pairs_named(e, "max_age"@) =~= empty),
    }
    lemma_pairs_named_add(seq![("format"@, format)], fp, "sort_by"@);
    lemma_pairs_named_one("format"@, format, "sort_by"@);
    lemma_filter_params_named(gender, country, age_group, min_age, max_age, sort_by, order, "sort_by"@);
    match sort_by {
        Some(x) => assert(pairs_named(e, "sort_by"@) =~= seq![("sort_by"@, x@)]),
        None => assert(pairs_named(e, "sort_by"@) =~= empty),
    }
    lemma_pairs_named_add(seq![("format"@, format)], fp, "order"@);
    lemma_pairs_named_one("format"@, format, "order"@);
    lemma_filter_params_named(gender, country, age_group, min_age, max_age, sort_by, order, "order"@);
    match order {
        Some(x) => assert(pairs_named(e, "order"@) =~= seq![("order"@, x@)]),
        None => assert(pairs_named(e, "order"@) =~= empty),
    }
}

/// Whether some row of `rows` is `label | value`, and every row that
/// starts with `label` is that row.
pub open spec fn shows_row(rows: Seq<Seq<Seq<char>>>, label: Seq<char>, value: Seq<char>) -> bool {
    &&& exists|i: int| 0 <= i < rows.len() && #[trigger] rows[i] == seq![label, value]
    &&& forall|i: int|
        0 <= i < rows.len() && rows[i].len() > 0 && #[trigger] rows[i][0] == label ==> rows[i]
            == seq![label, value]
}

/// Whether some column of a listing is headed `label` and shows `value` in
/// `row`, and every column headed `label` does.
pub open spec fn shows_column(
    headers: Seq<Seq<char>>,
    row: Seq<Seq<char>>,
    label: Seq<char>,
    value: Seq<char>,
) -> bool {
    &&& exists|j: int| 0 <= j < headers.len() && #[trigger] headers[j] == label && row[j] == value
    &&& forall|j: int| 0 <= j < headers.len() && #[trigger] headers[j] == label ==> row[j] == value
}

/// Each row of the table of `profiles get` shows the member its label
/// names: `ID` the `id`, `Country Code` the `country_id`, `Country` the
/// `country_name`, and so on for all ten labels, each label once.
pub proof fn lemma_detail_rows_show_named_members(p: JsonValue)
    ensures
        detail_rows(p).len() == 10,
        forall|i: int| 0 <= i < 10 ==> #[trigger] detail_rows(p)[i].len() == 2,
        shows_row(detail_rows(p), "ID"@, display_value(field(p, "id"@))),
        shows_row(detail_rows(p), "Name"@, display_value(field(p, "name"@))),
        shows_row(detail_rows(p), "Gender"@, display_value(field(p, "gender"@))),
        shows_row(detail_rows(p), "Gender Probability"@, display_value(field(p, "gender_probability"@))),
        shows_row(detail_rows(p), "Age"@, display_value(field(p, "age"@))),
        shows_row(detail_rows(p), "Age Group"@, display_value(field(p, "age_group"@))),
        shows_row(detail_rows(p), "Country"@, display_value(field(p, "country_name"@))),
        shows_row(detail_rows(p), "Country Code"@, display_value(field(p, "country_id"@))),
        shows_row(detail_rows(p), "Country Probability"@, display_value(field(p, "country_probability"@))),
        shows_row(detail_rows(p), "Created At"@, display_value(field(p, "created_at"@))),
{
    reveal_strlit("ID");
    reveal_strlit("Name");
    reveal_strlit("Gender");
    reveal_strlit("Gender Probability");
    reveal_strlit("Age");
    reveal_strlit("Age Group");
    reveal_strlit("Country");
    reveal_strlit("Country Code");
    reveal_strlit("Country Probability");
    reveal_strlit("Created At");
    let rows = detail_rows(p);
    assert("ID"@.len() == 2 && "Name"@.len() == 4 && "Gender"@.len() == 6 && "Gender Probability"@.len() == 18 && "Age"@.len() == 3 && "Age Group"@.len() == 9 && "Country"@.len() == 7 && "Country Code"@.len() == 12 && "Country Probability"@.len() == 19 && "Created At"@.len() == 10);
    assert forall|i: int| 0 <= i < 10 implies #[trigger] rows[i].len() == 2 by {
        if i == 0 {} else if i == 1 {} else if i == 2 {} else if i == 3 {} else if i == 4 {} else if i == 5 {} else if i == 6 {} else if i == 7 {} else if i == 8 {} else if i == 9 {}
    }
    assert(rows[0] == seq!["ID"@, display_value(field(p, "id"@))]);
    assert forall|i: int| 0 <= i < rows.len() && rows[i].len() > 0 && #[trigger] rows[i][0] == "ID"@ implies rows[i] == seq!["ID"@, display_value(field(p, "id"@))] by {
        if i == 0 {} else if i == 1 {} else if i == 2 {} else if i == 3 {} else if i == 4 {} else if i == 5 {} else if i == 6 {} else if i == 7 {} else if i == 8 {} else if i == 9 {}
    }
    assert(rows[1] == seq!["Name"@, display_value(field(p, "name"@))]);
    assert forall|i: int| 0 <= i < rows.len() && rows[i].len() > 0 && #[trigger] rows[i][0] == "Name"@ implies rows[i] == seq!["Name"@, display_value(field(p, "name"@))] by {
        if i == 0 {} else if i == 1 {} else if i == 2 {} else if i == 3 {} else if i == 4 {} else if i == 5 {} else if i == 6 {} else if i == 7 {} else if i == 8 {} else if i == 9 {}
    }
    assert(rows[2] == seq!["Gender"@, display_value(field(p, "gender"@))]);
    assert forall|i: int| 0 <= i < rows.len() && rows[i].len() > 0 && #[trigger] rows[i][0] == "Gender"@ implies rows[i] == seq!["Gender"@, display_value(field(p, "gender"@))] by {
        if i == 0 {} else if i == 1 {} else if i == 2 {} else if i == 3 {} else if i == 4 {} else if i == 5 {} else if i == 6 {} else if i == 7 {} else if i == 8 {} else if i == 9 {}
    }
    assert(rows[3] == seq!["Gender Probability"@, display_value(field(p, "gender_probability"@))]);
    assert forall|i: int| 0 <= i < rows.len() && rows[i].len() > 0 && #[trigger] rows[i][0] == "Gender Probability"@ implies rows[i] == seq!["Gender Probability"@, display_value(field(p, "gender_probability"@))] by {
        if i == 0 {} else if i == 1 {} else if i == 2 {} else if i == 3 {} else if i == 4 {} else if i == 5 {} else if i == 6 {} else if i == 7 {} else if i == 8 {} else if i == 9 {}
    }
    assert(rows[4] == seq!["Age"@, display_value(field(p, "age"@))]);
    assert forall|i: int| 0 <= i < rows.len() && rows[i].len() > 0 && #[trigger] rows[i][0] == "Age"@ implies rows[i] == seq!["Age"@, display_value(field(p, "age"@))] by {
        if i == 0 {} else if i == 1 {} else if i == 2 {} else if i == 3 {} else if i == 4 {} else if i == 5 {} else if i == 6 {} else if i == 7 {} else if i == 8 {} else if i == 9 {}
    }
    assert(rows[5] == seq!["Age Group"@, display_value(field(p, "age_group"@))]);
    assert forall|i: int| 0 <= i < rows.len() && rows[i].len() > 0 && #[trigger] rows[i][0] == "Age Group"@ implies rows[i] == seq!["Age Group"@, display_value(field(p, "age_group"@))] by {
        if i == 0 {} else if i == 1 {} else if i == 2 {} else if i == 3 {} else if i == 4 {} else if i == 5 {} else if i == 6 {} else if i == 7 {} else if i == 8 {} else if i == 9 {}
    }
    assert(rows[6] == seq!["Country"@, display_value(field(p, "country_name"@))]);
    assert forall|i: int| 0 <= i < rows.len() && rows[i].len() > 0 && #[trigger] rows[i][0] == "Country"@ implies rows[i] == seq!["Country"@, display_value(field(p, "country_name"@))] by {
        if i == 0 {} else if i == 1 {} else if i == 2 {} else if i == 3 {} else if i == 4 {} else if i == 5 {} else if i == 6 {} else if i == 7 {} else if i == 8 {} else if i == 9 {}
    }
    assert(rows[7] == seq!["Country Code"@, display_value(field(p, "country_id"@))]);
    assert forall|i: int| 0 <= i < rows.len() && rows[i].len() > 0 && #[trigger] rows[i][0] == "Country Code"@ implies rows[i] == seq!["Country Code"@, display_value(field(p, "country_id"@))] by {
        if i == 0 {} else if i == 1 {} else if i == 2 {} else if i == 3 {} else if i == 4 {} else if i == 5 {} else if i == 6 {} else if i == 7 {} else if i == 8 {} else if i == 9 {}
    }
    assert(rows[8] == seq!["Country Probability"@, display_value(field(p, "country_probability"@))]);
    assert forall|i: int| 0 <= i < rows.len() && rows[i].len() > 0 && #[trigger] rows[i][0] == "Country Probability"@ implies rows[i] == seq!["Country Probability"@, display_value(field(p, "country_probability"@))] by {
        if i == 0 {} else if i == 1 {} else if i == 2 {} else if i == 3 {} else if i == 4 {} else if i == 5 {} else if i == 6 {} else if i == 7 {} else if i == 8 {} else if i == 9 {}
    }
    assert(rows[9] == seq!["Created At"@, display_value(field(p, "created_at"@))]);
    assert forall|i: int| 0 <= i < rows.len() && rows[i].len() > 0 && #[trigger] rows[i][0] == "Created At"@ implies rows[i] == seq!["Created At"@, display_value(field(p, "created_at"@))] by {
        if i == 0 {} else if i == 1 {} else if i == 2 {} else if i == 3 {} else if i == 4 {} else if i == 5 {} else if i == 6 {} else if i == 7 {} else if i == 8 {} else if i == 9 {}
    }
}

/// Each row of the table of `profiles create` shows the member its label
/// names: `ID` the `id`, `Name` the `name`, `Gender` the `gender`, `Age` the
/// `age`, `Country` the `country_name`.
pub proof fn lemma_created_rows_show_named_members(p: JsonValue)
    ensures
        created_rows(p).len() == 5,
        forall|i: int| 0 <= i < 5 ==> #[trigger] created_rows(p)[i].len() == 2,
        shows_row(created_rows(p), "ID"@, display_value(field(p, "id"@))),
        shows_row(created_rows(p), "Name"@, display_value(field(p, "name"@))),
        shows_row(created_rows(p), "Gender"@, display_value(field(p, "gender"@))),
        shows_row(created_rows(p), "Age"@, display_value(field(p, "age"@))),
        shows_row(created_rows(p), "Country"@, display_value(field(p, "country_name"@))),
{
    reveal_strlit("ID");
    reveal_strlit("Name");
    reveal_strlit("Gender");
    reveal_strlit("Age");
    reveal_strlit("Country");
    let rows = created_rows(p);
    assert("ID"@.len() == 2 && "Name"@.len() == 4 && "Gender"@.len() == 6 && "Age"@.len() == 3 && "Country"@.len() == 7);
    assert forall|i: int| 0 <= i < 5 implies #[trigger] rows[i].len() == 2 by {
        if i == 0 {} else if i == 1 {} else if i == 2 {} else if i == 3 {} else if i == 4 {}
    }
    assert(rows[0] == seq!["ID"@, display_value(field(p, "id"@))]);
    assert forall|i: int| 0 <= i < rows.len() && rows[i].len() > 0 && #[trigger] rows[i][0] == "ID"@ implies rows[i] == seq!["ID"@, display_value(field(p, "id"@))] by {
        if i == 0 {} else if i == 1 {} else if i == 2 {} else if i == 3 {} else if i == 4 {}
    }
    assert(rows[1] == seq!["Name"@, display_value(field(p, "name"@))]);
    assert forall|i: int| 0 <= i < rows.len() && rows[i].len() > 0 && #[trigger] rows[i][0] == "Name"@ implies rows[i] == seq!["Name"@, display_value(field(p, "name"@))] by {
        if i == 0 {} else if i == 1 {} else if i == 2 {} else if i == 3 {} else if i == 4 {}
    }
    assert(rows[2] == seq!["Gender"@, display_value(field(p, "gender"@))]);
    assert forall|i: int| 0 <= i < rows.len() && rows[i].len() > 0 && #[trigger] rows[i][0] == "Gender"@ implies rows[i] == seq!["Gender"@, display_value(field(p, "gender"@))] by {
        if i == 0 {} else if i == 1 {} else if i == 2 {} else if i == 3 {} else if i == 4 {}
    }
    assert(rows[3] == seq!["Age"@, display_value(field(p, "age"@))]);
    assert forall|i: int| 0 <= i < rows.len() && rows[i].len() > 0 && #[trigger] rows[i][0] == "Age"@ implies rows[i] == seq!["Age"@, display_value(field(p, "age"@))] by {
        if i == 0 {} else if i == 1 {} else if i == 2 {} else if i == 3 {} else if i == 4 {}
    }
    assert(rows[4] == seq!["Country"@, display_value(field(p, "country_name"@))]);
    assert forall|i: int| 0 <= i < rows.len() && rows[i].len() > 0 && #[trigger] rows[i][0] == "Country"@ implies rows[i] == seq!["Country"@, display_value(field(p, "country_name"@))] by {
        if i == 0 {} else if i == 1 {} else if i == 2 {} else if i == 3 {} else if i == 4 {}
    }
}

/// Each column of a listing shows, for every profile, the member its
/// header names: `ID` the `id`, `Age` the `age`, `Age Group` the
/// `age_group`, `Country` the `country_name`, and so on, each header once.
pub proof fn lemma_listing_columns_show_named_members(p: JsonValue)
    ensures
        listing_headers().len() == 7,
        listing_row(p).len() == 7,
        shows_column(listing_headers(), listing_row(p), "ID"@, display_value(field(p, "id"@))),
        shows_column(listing_headers(), listing_row(p), "Name"@, display_value(field(p, "name"@))),
        shows_column(listing_headers(), listing_row(p), "Gender"@, display_value(field(p, "gender"@))),
        shows_column(listing_headers(), listing_row(p), "Age"@, display_value(field(p, "age"@))),
        shows_column(listing_headers(), listing_row(p), "Age Group"@, display_value(field(p, "age_group"@))),
        shows_column(listing_headers(), listing_row(p), "Country"@, display_value(field(p, "country_name"@))),
        shows_column(listing_headers(), listing_row(p), "Created At"@, display_value(field(p, "created_at"@))),
{
    reveal_strlit("ID");
    reveal_strlit("Name");
    reveal_strlit("Gender");
    reveal_strlit("Age");
    reveal_strlit("Age Group");
    reveal_strlit("Country");
    reveal_strlit("Created At");
    let h = listing_headers();
    let row = listing_row(p);
    assert("ID"@.len() == 2 && "Name"@.len() == 4 && "Gender"@.len() == 6 && "Age"@.len() == 3 && "Age Group"@.len() == 9 && "Country"@.len() == 7 && "Created At"@.len() == 10);
    assert(h[0] == "ID"@ && row[0] == display_value(field(p, "id"@)));
    assert forall|j: int| 0 <= j < h.len() && #[trigger] h[j] == "ID"@ implies row[j] == display_value(field(p, "id"@)) by {
        if j == 0 {} else if j == 1 {} else if j == 2 {} else if j == 3 {} else if j == 4 {} else if j == 5 {} else if j == 6 {}
    }
    assert(h[1] == "Name"@ && row[1] == display_value(field(p, "name"@)));
    assert forall|j: int| 0 <= j < h.len() && #[trigger] h[j] == "Name"@ implies row[j] == display_value(field(p, "name"@)) by {
        if j == 0 {} else if j == 1 {} else if j == 2 {} else if j == 3 {} else if j == 4 {} else if j == 5 {} else if j == 6 {}
    }
    assert(h[2] == "Gender"@ && row[2] == display_value(field(p, "gender"@)));
    assert forall|j: int| 0 <= j < h.len() && #[trigger] h[j] == "Gender"@ implies row[j] == display_value(field(p, "gender"@)) by {
        if j == 0 {} else if j == 1 {} else if j == 2 {} else if j == 3 {} else if j == 4 {} else if j == 5 {} else if j == 6 {}
    }
    assert(h[3] == "Age"@ && row[3] == display_value(field(p, "age"@)));
    assert forall|j: int| 0 <= j < h.len() && #[trigger] h[j] == "Age"@ implies row[j] == display_value(field(p, "age"@)) by {
        if j == 0 {} else if j == 1 {} else if j == 2 {} else if j == 3 {} else if j == 4 {} else if j == 5 {} else if j == 6 {}
    }
    assert(h[4] == "Age Group"@ && row[4] == display_value(field(p, "age_group"@)));
    assert forall|j: int| 0 <= j < h.len() && #[trigger] h[j] == "Age Group"@ implies row[j] == display_value(field(p, "age_group"@)) by {
        if j == 0 {} else if j == 1 {} else if j == 2 {} else if j == 3 {} else if j == 4 {} else if j == 5 {} else if j == 6 {}
    }
    assert(h[5] == "Country"@ && row[5] == display_value(field(p, "country_name"@)));
    assert forall|j: int| 0 <= j < h.len() && #[trigger] h[j] == "Country"@ implies row[j] == display_value(field(p, "country_name"@)) by {
        if j == 0 {} else if j == 1 {} else if j == 2 {} else if j == 3 {} else if j == 4 {} else if j == 5 {} else if j == 6 {}
    }
    assert(h[6] == "Created At"@ && row[6] == display_value(field(p, "created_at"@)));
    assert forall|j: int| 0 <= j < h.len() && #[trigger] h[j] == "Created At"@ implies row[j] == display_value(field(p, "created_at"@)) by {
        if j == 0 {} else if j == 1 {} else if j == 2 {} else if j == 3 {} else if j == 4 {} else if j == 5 {} else if j == 6 {}
    }
}

/// How a member is shown: a string as its text, a non-negative integer in
/// decimal, a negative one with a `-` before its magnitude, any other
/// number as written, a boolean as `true` or `false`, an array or object as
/// its JSON text, and a `null` or missing member as `-`.
pub proof fn lemma_display_value_kinds(v: JsonValue)
    ensures
        display_value(None) == "-"@,
        v is Null ==> display_value(Some(v)) == "-"@,
        v matches JsonValue::Str(s) ==> display_value(Some(v)) == s@,
        v matches JsonValue::Number(JsonNumber::PosInt(n)) ==> display_value(Some(v)) == decimal(
            n as nat,
        ),
        v matches JsonValue::Number(JsonNumber::NegInt(n)) ==> (n < 0 ==> display_value(Some(v))
            == seq!['-'] + decimal((-n) as nat)),
        v matches JsonValue::Number(JsonNumber::Float(t)) ==> display_value(Some(v)) == t@,
        v == JsonValue::Bool(true) ==> display_value(Some(v)) == "true"@,
        v == JsonValue::Bool(false) ==> display_value(Some(v)) == "false"@,
        v matches JsonValue::Array { text, .. } ==> display_value(Some(v)) == text@,
        v matches JsonValue::Object { text, .. } ==> display_value(Some(v)) == text@,
{
}

/// The profiles of a listing are the items of its `data` member when that
/// is an array, and none otherwise.
pub proof fn lemma_listing_items_are_data(reply: JsonValue)
    ensures
        field(reply, "data"@) matches Some(JsonValue::Array { items, .. }) ==> listing_items(reply)
            == items@,
        !(field(reply, "data"@) matches Some(JsonValue::Array { .. })) ==> listing_items(reply)
            == Seq::<JsonValue>::empty(),
{
}

/// The summary of a page names the page asked for, then the reply's
/// `total_pages`, then its `total`; a missing count reads as 1 page and 0
/// profiles.
pub proof fn lemma_page_summary_counts(page: u32, reply: JsonValue)
    ensures
        u64_field(reply, "total"@) matches Some(t) ==> (u64_field(reply, "total_pages"@) matches Some(
            n,
        ) ==> page_summary(page, reply) == "Showing page "@ + decimal(page as nat) + " of "@
            + decimal(n as nat) + " ("@ + decimal(t as nat) + " total)"@),
        u64_field(reply, "total"@) is None && u64_field(reply, "total_pages"@) is None
            ==> page_summary(page, reply) == "Showing page "@ + decimal(page as nat) + " of "@
            + decimal(1) + " ("@ + decimal(0) + " total)"@,
{
}

/// The name given after `filename=` in a `Content-Disposition` value is
/// the file an export is saved to, quoted or not, when nothing before
/// `filename=` starts with `f` and the name holds no `"` and no `=`.
pub proof fn lemma_export_filename_is_given_name(prefix: Seq<char>, name: Seq<char>)
    requires
        forall|i: int| 0 <= i < prefix.len() ==> prefix[i] != 'f',
        !name.contains('"'),
        !name.contains('='),
    ensures
        export_filename_spec(Some(prefix + "filename="@ + name)) == name,
        export_filename_spec(Some(prefix + "filename="@ + (seq!['"'] + name + seq!['"']))) == name,
{
    reveal_strlit("filename=");
    let pat = "filename="@;
    assert(pat[0] == 'f' && pat.last() == '=' && pat.len() == 9);
    let quoted = seq!['"'] + name + seq!['"'];
    assert(!quoted.contains('=')) by {
        if quoted.contains('=') {
            let j = choose|j: int| 0 <= j < quoted.len() && quoted[j] == '=';
            assert(name[j - 1] == '=');
        }
    }
    crate::text::lemma_find_str_after(prefix, pat, name);
    crate::text::lemma_find_str_after(prefix, pat, quoted);
    assert((prefix + pat + name).skip(prefix.len() + pat.len() as int) =~= name);
    assert((prefix + pat + quoted).skip(prefix.len() + pat.len() as int) =~= quoted);
    crate::text::lemma_find_str_missing_char(name, pat);
    crate::text::lemma_find_str_missing_char(quoted, pat);
    crate::text::lemma_trim_quotes_of_plain(name);
}

} // verus!
