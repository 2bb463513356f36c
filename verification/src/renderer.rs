//! Rendering: every placeholder of a request that has a value gets the value in place
//! of its token, at each location that the catalog lists for it.

use crate::headers::{
    acceptable, first_value, header_fields, header_name_text, name_text, readable, set_first_value,
    value_from_text, value_text,
};
use crate::placeholders::{Location, Placeholders, Site};
use crate::request::{pairs_text, Body, BodyText, FormDataText, FormDataValue, Request, RequestText};
use crate::table::{gathered, index_of, lookup, Table};
use crate::text::{replaced, substitute, token, token_for};
use http::header::{HeaderMap, HeaderName, HeaderValue};
use vstd::prelude::*;
use vstd::utf8::{decode_utf8, encode_utf8};

verus! {

/// Why a request could not be rendered.
#[derive(Debug, PartialEq, Eq)]
pub enum RenderError {
    /// The header's value holds bytes that are not text.
    UnreadableHeader { header: String },
    /// With the value filled in, the header's text is no valid header value.
    InvalidHeaderValue { header: String, value: String },
}

/// A rendering error as plain values.
pub enum RenderFault {
    UnreadableHeader { header: Seq<char> },
    InvalidHeaderValue { header: Seq<char>, value: Seq<char> },
}

impl View for RenderError {
    type V = RenderFault;

    open spec fn view(&self) -> RenderFault {
        match self {
            RenderError::UnreadableHeader { header } => RenderFault::UnreadableHeader { header: header@ },
            RenderError::InvalidHeaderValue { header, value } => RenderFault::InvalidHeaderValue {
                header: header@,
                value: value@,
            },
        }
    }
}

/// The message of a rendering error, for a person to read.
pub open spec fn render_message(fault: RenderFault) -> Seq<char> {
    match fault {
        RenderFault::UnreadableHeader { header } => "failed to convert header to string: "@ + header,
        RenderFault::InvalidHeaderValue { header, value } => "rendered header value is invalid: "@ + header + " "@
            + value,
    }
}

impl RenderError {
    /// The message of the error.
    pub fn message(&self) -> (text: String)
        ensures
            text@ == render_message(self@),
    {
        match self {
            RenderError::UnreadableHeader { header } => {
                let mut text = String::from_str("failed to convert header to string: ");
                text.append(header.as_str());
                text
            },
            RenderError::InvalidHeaderValue { header, value } => {
                let mut text = String::from_str("rendered header value is invalid: ");
                text.append(header.as_str());
                text.append(" ");
                text.append(value.as_str());
                text
            },
        }
    }
}

/// The pairs with the token replaced in the value of the first pair whose key is `key`.
/// Without such a pair nothing changes.
pub open spec fn rendered_pairs(
    pairs: Seq<(Seq<char>, Seq<char>)>,
    key: Seq<char>,
    token: Seq<char>,
    value: Seq<char>,
) -> Seq<(Seq<char>, Seq<char>)> {
    match index_of(pairs, key) {
        Some(i) => pairs.update(i, (pairs[i].0, replaced(pairs[i].1, token, value))),
        None => pairs,
    }
}

/// A form field with the token replaced in its text or in its path.
pub open spec fn rendered_field(field: FormDataText, token: Seq<char>, value: Seq<char>) -> FormDataText {
    match field {
        FormDataText::Text(text) => FormDataText::Text(replaced(text, token, value)),
        FormDataText::File(path) => FormDataText::File(replaced(path, token, value)),
    }
}

/// The fields with the token replaced in the field whose key is `key`. Without such a
/// field nothing changes.
pub open spec fn rendered_fields(
    fields: Seq<(Seq<char>, FormDataText)>,
    key: Seq<char>,
    token: Seq<char>,
    value: Seq<char>,
) -> Seq<(Seq<char>, FormDataText)> {
    match index_of(fields, key) {
        Some(i) => fields.update(i, (fields[i].0, rendered_field(fields[i].1, token, value))),
        None => fields,
    }
}

/// The headers with the token replaced in the first value of the header `name`.
/// Without such a header nothing changes. Rendering fails where that value is not
/// text, and where the text that results is no valid header value.
pub open spec fn rendered_headers(
    fields: Map<Seq<char>, Seq<Seq<u8>>>,
    name: Seq<char>,
    token: Seq<char>,
    value: Seq<char>,
) -> Result<Map<Seq<char>, Seq<Seq<u8>>>, RenderFault> {
    if !fields.dom().contains(name) {
        Ok(fields)
    } else if !readable(fields[name][0]) {
        Err(RenderFault::UnreadableHeader { header: name })
    } else {
        let text = replaced(decode_utf8(fields[name][0]), token, value);
        if acceptable(encode_utf8(text)) {
            Ok(fields.insert(name, fields[name].update(0, encode_utf8(text))))
        } else {
            Err(RenderFault::InvalidHeaderValue { header: name, value: text })
        }
    }
}

/// Replaces the token in the first value of the header `header`, if the map has one.
pub fn render_headers(
    header_map: &mut HeaderMap<HeaderValue>,
    header: &HeaderName,
    placeholder: &str,
    val: &str,
) -> (done: Result<(), RenderError>)
    ensures
        match rendered_headers(
            header_fields(*old(header_map)),
            header_name_text(*header),
            placeholder@,
            val@,
        ) {
            Ok(fields) => done is Ok && header_fields(*final(header_map)) == fields,
            Err(fault) => done matches Err(e) && e@ == fault && *final(header_map) == *old(header_map),
        },
        !header_fields(*old(header_map)).dom().contains(header_name_text(*header)) ==> *final(header_map) == *old(
            header_map,
        ),
{
    let text = match first_value(header_map, header) {
        None => {
            return Ok(());
        },
        Some(current) => match value_text(current) {
            None => {
                return Err(RenderError::UnreadableHeader { header: name_text(header) });
            },
            Some(text) => {
                proof {
                    vstd::utf8::encode_utf8_decode_utf8(text@);
                }
                substitute(text, placeholder, val)
            },
        },
    };
    match value_from_text(text.as_str()) {
        None => Err(RenderError::InvalidHeaderValue { header: name_text(header), value: text }),
        Some(value) => {
            set_first_value(header_map, header, value);
            Ok(())
        },
    }
}

/// Replaces the token in the field of a multipart form whose key is `key`, if the form
/// has one: in its text, or in its path.
pub fn render_form_data(form: &mut Table<FormDataValue>, key: &str, placeholder: &str, val: &str)
    ensures
        final(form)@ == rendered_fields(old(form)@, key@, placeholder@, val@),
        old(form).wf() ==> final(form).wf(),
{
    match form.find(key) {
        Some(i) => {
            let field = match &form.entries[i].1 {
                FormDataValue::Text(text) => FormDataValue::Text(substitute(text.as_str(), placeholder, val)),
                FormDataValue::File(path) => FormDataValue::File(substitute(path.as_str(), placeholder, val)),
            };
            form.entries[i].1 = field;
            assert(form@ =~= rendered_fields(old(form)@, key@, placeholder@, val@));
            assert(old(form).wf() ==> form.wf()) by {
                assert forall|a: int| 0 <= a < form@.len() implies (#[trigger] form@[a]).0 == old(form)@[a].0 by {}
            }
        },
        None => {},
    }
}

/// Replaces the token in the value of a url-encoded form whose key is `key`, if the
/// form has one.
pub fn render_form_urlencoded(form: &mut Table<String>, key: &str, placeholder: &str, val: &str)
    ensures
        final(form)@ == rendered_pairs(old(form)@, key@, placeholder@, val@),
        old(form).wf() ==> final(form).wf(),
{
    match form.find(key) {
        Some(i) => {
            let value = substitute(form.entries[i].1.as_str(), placeholder, val);
            form.entries[i].1 = value;
            assert(form@ =~= rendered_pairs(old(form)@, key@, placeholder@, val@));
            assert(old(form).wf() ==> form.wf()) by {
                assert forall|a: int| 0 <= a < form@.len() implies (#[trigger] form@[a]).0 == old(form)@[a].0 by {}
            }
        },
        None => {},
    }
}

/// A body with the token replaced in the form field whose key is `key`. A body that is
/// no form has no fields.
pub open spec fn rendered_body(body: BodyText, key: Seq<char>, token: Seq<char>, value: Seq<char>) -> BodyText {
    match body {
        BodyText::FormData(fields) => BodyText::FormData(rendered_fields(fields, key, token, value)),
        BodyText::XFormUrlEncoded(pairs) => BodyText::XFormUrlEncoded(rendered_pairs(pairs, key, token, value)),
        _ => body,
    }
}

/// A request with the token replaced at one site.
pub open spec fn rendered_site(
    request: RequestText,
    site: Site,
    token: Seq<char>,
    value: Seq<char>,
) -> Result<RequestText, RenderFault> {
    match site {
        Site::Url => Ok(RequestText { url: replaced(request.url, token, value), ..request }),
        Site::Headers(name) => match rendered_headers(request.headers, name, token, value) {
            Ok(headers) => Ok(RequestText { headers, ..request }),
            Err(fault) => Err(fault),
        },
        Site::QueryParams(key) => Ok(
            RequestText { query_params: rendered_pairs(request.query_params, key, token, value), ..request },
        ),
        Site::BodyForm(key) => Ok(RequestText { body: rendered_body(request.body, key, token, value), ..request }),
        Site::Body => Ok(request),
    }
}

/// A request with the token replaced at each of `sites` in turn, up to the first
/// failure.
pub open spec fn rendered_sites(
    request: RequestText,
    sites: Seq<Site>,
    token: Seq<char>,
    value: Seq<char>,
) -> Result<RequestText, RenderFault>
    decreases sites.len(),
{
    if sites.len() == 0 {
        Ok(request)
    } else {
        match rendered_site(request, sites[0], token, value) {
            Ok(next) => rendered_sites(next, sites.skip(1), token, value),
            Err(fault) => Err(fault),
        }
    }
}

/// A request rendered with a catalog and a table of values: the names of the catalog
/// are taken in order; a name without a value is passed over; a name with a value has
/// its token replaced at each of its sites. Each step works on what the steps before
/// it left.
pub open spec fn rendered(
    request: RequestText,
    catalog: Seq<(Seq<char>, Seq<Site>)>,
    values: Seq<(Seq<char>, Seq<char>)>,
) -> Result<RequestText, RenderFault>
    decreases catalog.len(),
{
    if catalog.len() == 0 {
        Ok(request)
    } else {
        match lookup(values, catalog[0].0) {
            None => rendered(request, catalog.skip(1), values),
            Some(value) => match rendered_sites(request, catalog[0].1, token(catalog[0].0), value) {
                Ok(next) => rendered(next, catalog.skip(1), values),
                Err(fault) => Err(fault),
            },
        }
    }
}

/// Whether a body is a form.
pub open spec fn is_form(body: BodyText) -> bool {
    body is FormData || body is XFormUrlEncoded
}

/// Whether a catalog suits a body under a table of values: a name that has a value
/// lists a form field only where the body is a form.
pub open spec fn suits(
    catalog: Seq<(Seq<char>, Seq<Site>)>,
    values: Seq<(Seq<char>, Seq<char>)>,
    body: BodyText,
) -> bool {
    forall|i: int, j: int|
        0 <= i < catalog.len() && 0 <= j < catalog[i].1.len() && lookup(values, catalog[i].0) is Some
            && (#[trigger] catalog[i].1[j]) is BodyForm ==> is_form(body)
}

/// A catalog of placeholders together with the values to fill in.
pub struct Renderer {
    placeholders: Placeholders,
    values: Table<String>,
}

impl Renderer {
    /// The catalog.
    pub closed spec fn catalog(&self) -> Seq<(Seq<char>, Seq<Site>)> {
        self.placeholders@
    }

    /// The values by name.
    pub closed spec fn values(&self) -> Seq<(Seq<char>, Seq<char>)> {
        self.values@
    }

    /// A renderer for a catalog and the values of its names.
    pub fn new(placeholders: Placeholders, values: &[(String, String)]) -> (renderer: Self)
        ensures
            renderer.catalog() == placeholders@,
            renderer.values() == gathered(pairs_text(values@)),
    {
        let mut table: Table<String> = Table::new();
        let mut i: usize = 0;
        assert(pairs_text(values@).take(0) =~= Seq::<(Seq<char>, Seq<char>)>::empty());
        while i < values.len()
            invariant
                i <= values.len(),
                table.wf(),
                table@ == gathered(pairs_text(values@).take(i as int)),
            decreases values.len() - i,
        {
            let key = values[i].0.clone();
            let value = values[i].1.clone();
            proof {
                let upto = pairs_text(values@).take(i + 1);
                assert(upto.drop_last() =~= pairs_text(values@).take(i as int));
                assert(upto.last() == (key@, value@));
            }
            table.insert(key, value);
            i += 1;
        }
        assert(pairs_text(values@).take(values@.len() as int) =~= pairs_text(values@));
        Renderer { placeholders, values: table }
    }

    /// Whether the catalog suits the body of a request: `render` asks for it.
    pub fn suits(&self, body: &Body) -> (fit: bool)
        ensures
            fit == suits(self.catalog(), self.values(), body@),
    {
        let form = match body {
            Body::FormData(_) => true,
            Body::XFormUrlEncoded(_) => true,
            _ => false,
        };
        if form {
            return true;
        }
        let mut i: usize = 0;
        while i < self.placeholders.names.len()
            invariant
                i <= self.placeholders.names@.len(),
                !is_form(body@),
                forall|a: int, b: int|
                    0 <= a < i && 0 <= b < self.catalog()[a].1.len() && lookup(
                        self.values(),
                        self.catalog()[a].0,
                    ) is Some ==> !((#[trigger] self.catalog()[a].1[b]) is BodyForm),
            decreases self.placeholders.names@.len() - i,
        {
            let (name, locations) = self.placeholders.names.entry(i);
            if self.values.get(name).is_some() {
                let mut j: usize = 0;
                while j < locations.len()
                    invariant
                        j <= locations.len(),
                        i < self.placeholders.names@.len(),
                        locations@ == self.placeholders.names@[i as int].1,
                        lookup(self.values(), self.catalog()[i as int].0) is Some,
                        !is_form(body@),
                        forall|b: int| 0 <= b < j ==> !((#[trigger] self.catalog()[i as int].1[b]) is BodyForm),
                    decreases locations.len() - j,
                {
                    if let Location::BodyForm(_) = &locations[j] {
                        assert(self.catalog()[i as int].1[j as int] is BodyForm);
                        return false;
                    }
                    j += 1;
                }
            }
            i += 1;
        }
        true
    }

    /// Renders a request: every name of the catalog that has a value gets the value in
    /// place of its token, at each location that the catalog lists for it. Method,
    /// version, metadata and variables pass through.
    pub fn render(&self, request: Request) -> (done: Result<Request, RenderError>)
        requires
            suits(self.catalog(), self.values(), request.body@),
        ensures
            match rendered(request@, self.catalog(), self.values()) {
                Ok(text) => done matches Ok(out) && out@ == text && (request.body.wf() ==> out.body.wf()),
                Err(fault) => done matches Err(e) && e@ == fault,
            },
    {
        let ghost start = request@;
        let Request { method, url, http_version, metadata, headers, query_params, variables, body } = request;
        let mut url = url;
        let mut headers = headers;
        let mut query = Table { entries: query_params };
        let mut body = body;
        assert(query@ =~= start.query_params);
        assert(self.catalog().skip(0) =~= self.catalog());

        let mut i: usize = 0;
        while i < self.placeholders.names.len()
            invariant
                i <= self.placeholders.names@.len(),
                start == request@,
                request.body.wf() ==> body.wf(),
                suits(self.catalog(), self.values(), start.body),
                is_form(body@) == is_form(start.body),
                rendered(
                    RequestText {
                        url: url@,
                        headers: header_fields(headers),
                        query_params: query@,
                        body: body@,
                        ..start
                    },
                    self.catalog().skip(i as int),
                    self.values(),
                ) == rendered(start, self.catalog(), self.values()),
            decreases self.placeholders.names@.len() - i,
        {
            let (name, locations) = self.placeholders.names.entry(i);
            let ghost rest = self.catalog().skip(i as int);
            let ghost sites = self.catalog()[i as int].1;
            let ghost entered = RequestText {
                url: url@,
                headers: header_fields(headers),
                query_params: query@,
                body: body@,
                ..start
            };
            proof {
                assert(rest[0] == self.catalog()[i as int]);
                assert(rest.skip(1) =~= self.catalog().skip(i + 1));
                assert(sites.skip(0) =~= sites);
            }
            match self.values.get(name) {
                None => {},
                Some(val) => {
                    let placeholder = token_for(name);
                    let mut j: usize = 0;
                    while j < locations.len()
                        invariant
                            j <= locations.len(),
                            i < self.placeholders.names@.len(),
                            locations@ == self.placeholders.names@[i as int].1,
                            sites == self.catalog()[i as int].1,
                            start == request@,
                            request.body.wf() ==> body.wf(),
                            name@ == self.catalog()[i as int].0,
                            lookup(self.values(), self.catalog()[i as int].0) == Some(val@),
                            suits(self.catalog(), self.values(), start.body),
                            is_form(body@) == is_form(start.body),
                            placeholder@ == token(name@),
                            rest == self.catalog().skip(i as int),
                            rest.len() > 0,
                            rest[0] == self.catalog()[i as int],
                            rendered(entered, rest, self.values()) == rendered(
                                start,
                                self.catalog(),
                                self.values(),
                            ),
                            rendered_sites(
                                RequestText {
                                    url: url@,
                                    headers: header_fields(headers),
                                    query_params: query@,
                                    body: body@,
                                    ..start
                                },
                                sites.skip(j as int),
                                placeholder@,
                                val@,
                            ) == rendered_sites(entered, sites, placeholder@, val@),
                        decreases locations.len() - j,
                    {
                        proof {
                            let left = sites.skip(j as int);
                            assert(left[0] == locations@[j as int]@);
                            assert(left.skip(1) =~= sites.skip(j + 1));
                        }
                        match &locations[j] {
                            Location::Url => {
                                url = substitute(url.as_str(), placeholder.as_str(), val.as_str());
                            },
                            Location::Headers(header) => {
                                match render_headers(&mut headers, header, placeholder.as_str(), val.as_str()) {
                                    Ok(()) => {},
                                    Err(e) => {
                                        return Err(e);
                                    },
                                }
                            },
                            Location::QueryParams(key) => {
                                render_form_urlencoded(&mut query, key.as_str(), placeholder.as_str(), val.as_str());
                            },
                            Location::BodyForm(key) => {
                                assert(self.catalog()[i as int].1[j as int] is BodyForm);
                                match &mut body {
                                    Body::FormData(form) => {
                                        render_form_data(form, key.as_str(), placeholder.as_str(), val.as_str());
                                    },
                                    Body::XFormUrlEncoded(form) => {
                                        render_form_urlencoded(
                                            form,
                                            key.as_str(),
                                            placeholder.as_str(),
                                            val.as_str(),
                                        );
                                    },
                                    _ => unreached(),
                                }
                            },
                            Location::Body => {},
                        }
                        j += 1;
                    }
                },
            }
            i += 1;
        }
        Ok(
            Request {
                method,
                url,
                http_version,
                metadata,
                headers,
                query_params: query.entries,
                variables,
                body,
            },
        )
    }
}

/// Rendering with no values at all gives the request back, equal in every field.
pub proof fn lemma_render_without_values(request: RequestText, catalog: Seq<(Seq<char>, Seq<Site>)>)
    ensures
        rendered(request, catalog, Seq::empty()) == Ok::<RequestText, RenderFault>(request),
    decreases catalog.len(),
{
    if catalog.len() > 0 {
        crate::table::lemma_index_of_absent(Seq::<(Seq<char>, Seq<char>)>::empty(), catalog[0].0);
        lemma_render_without_values(request, catalog.skip(1));
    }
}

/// A name without a value is passed over: its token stays as it is at each of its
/// sites, and the request is rendered as if the catalog did not list the name.
pub proof fn lemma_render_skips_name_without_value(
    request: RequestText,
    catalog: Seq<(Seq<char>, Seq<Site>)>,
    values: Seq<(Seq<char>, Seq<char>)>,
    i: int,
)
    requires
        0 <= i < catalog.len(),
        lookup(values, catalog[i].0) is None,
    ensures
        rendered(request, catalog, values) == rendered(request, catalog.remove(i), values),
    decreases catalog.len(),
{
    if i == 0 {
        assert(catalog.remove(0) =~= catalog.skip(1));
    } else {
        assert(catalog.remove(i)[0] == catalog[0]);
        assert(catalog.remove(i).skip(1) =~= catalog.skip(1).remove(i - 1));
        match lookup(values, catalog[0].0) {
            None => {
                lemma_render_skips_name_without_value(request, catalog.skip(1), values, i - 1);
            },
            Some(value) => {
                match rendered_sites(request, catalog[0].1, token(catalog[0].0), value) {
                    Ok(next) => {
                        lemma_render_skips_name_without_value(next, catalog.skip(1), values, i - 1);
                    },
                    Err(_) => {},
                }
            },
        }
    }
}

/// Storing a rendered value keeps every key where it is.
pub proof fn lemma_rendered_pairs_keep_keys(
    pairs: Seq<(Seq<char>, Seq<char>)>,
    key: Seq<char>,
    token: Seq<char>,
    value: Seq<char>,
)
    ensures
        same_keys(pairs, rendered_pairs(pairs, key, token, value)),
{
    crate::table::lemma_index_of_found(pairs, key);
}

/// Whether two lists of pairs have the same keys in the same order.
pub open spec fn same_keys(before: Seq<(Seq<char>, Seq<char>)>, after: Seq<(Seq<char>, Seq<char>)>) -> bool {
    &&& after.len() == before.len()
    &&& forall|i: int| 0 <= i < before.len() ==> (#[trigger] after[i]).0 == before[i].0
}

/// What rendering may change of a request: the URL, the values of headers, the values
/// of query parameters and the values of form fields. The method, the version, the
/// metadata and the variables stay, the query parameters keep their keys and their
/// order, and the body stays of its kind.
pub open spec fn same_frame(before: RequestText, after: RequestText) -> bool {
    &&& after.method == before.method
    &&& after.http_version == before.http_version
    &&& after.metadata == before.metadata
    &&& after.variables == before.variables
    &&& same_keys(before.query_params, after.query_params)
    &&& (after.body is Empty <==> before.body is Empty)
    &&& (after.body is FormData <==> before.body is FormData)
    &&& (after.body is XFormUrlEncoded <==> before.body is XFormUrlEncoded)
    &&& (before.body is Raw ==> after.body == before.body)
    &&& (before.body is Binary ==> after.body == before.body)
}

/// Replacing a token at one site changes nothing of the frame.
pub proof fn lemma_site_keeps_frame(request: RequestText, site: Site, token: Seq<char>, value: Seq<char>)
    ensures
        rendered_site(request, site, token, value) matches Ok(after) ==> same_frame(request, after),
{
    if let Site::QueryParams(key) = site {
        lemma_rendered_pairs_keep_keys(request.query_params, key, token, value);
    }
}

/// Replacing a token at several sites changes nothing of the frame.
pub proof fn lemma_sites_keep_frame(request: RequestText, sites: Seq<Site>, token: Seq<char>, value: Seq<char>)
    ensures
        rendered_sites(request, sites, token, value) matches Ok(after) ==> same_frame(request, after),
    decreases sites.len(),
{
    if sites.len() > 0 {
        lemma_site_keeps_frame(request, sites[0], token, value);
        if let Ok(next) = rendered_site(request, sites[0], token, value) {
            lemma_sites_keep_frame(next, sites.skip(1), token, value);
        }
    }
}

/// Rendering changes nothing of the frame of a request: what no location reaches is
/// passed through, and the query parameters come out in the order they went in.
pub proof fn lemma_render_keeps_frame(
    request: RequestText,
    catalog: Seq<(Seq<char>, Seq<Site>)>,
    values: Seq<(Seq<char>, Seq<char>)>,
)
    ensures
        rendered(request, catalog, values) matches Ok(after) ==> same_frame(request, after),
    decreases catalog.len(),
{
    if catalog.len() > 0 {
        match lookup(values, catalog[0].0) {
            None => {
                lemma_render_keeps_frame(request, catalog.skip(1), values);
            },
            Some(value) => {
                lemma_sites_keep_frame(request, catalog[0].1, token(catalog[0].0), value);
                if let Ok(next) = rendered_sites(request, catalog[0].1, token(catalog[0].0), value) {
                    lemma_render_keeps_frame(next, catalog.skip(1), values);
                }
            },
        }
    }
}

} // verus!
