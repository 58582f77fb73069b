use vstd::prelude::*;

use crate::entries::{
    ascii_lower, has_key, insert_pair, to_ascii_lower, keys_unique, lemma_insert_at, lemma_insert_new, map_insert, pairs_view,
};
use crate::error::Error;
use crate::item::RequestItem;

verus! {

/// The value of one field of a JSON body.
#[derive(Debug, PartialEq)]
pub enum FieldValue {
    /// From `name=value`: sent as a JSON string.
    Text(String),
    /// From `name:=value`: sent as the parsed JSON value.
    Json(serde_json::Value),
}

/// The mathematical value of a [`FieldValue`].
pub enum FieldView {
    Text(Seq<char>),
    Json(serde_json::Value),
}

impl View for FieldValue {
    type V = FieldView;

    open spec fn view(&self) -> FieldView {
        match self {
            FieldValue::Text(s) => FieldView::Text(s@),
            FieldValue::Json(v) => FieldView::Json(*v),
        }
    }
}

/// The body of an outgoing request.
#[derive(Debug, PartialEq)]
pub enum Body {
    /// A JSON object, its fields in order of first appearance.
    Json(Vec<(String, FieldValue)>),
    /// A URL-encoded form.
    Form(Vec<(String, String)>),
    /// A multipart form: its text parts, then its files as (name, path).
    Multipart(Vec<(String, String)>, Vec<(String, String)>),
    /// Bytes piped to the process, sent as they are.
    Raw(Vec<u8>),
}

/// The mathematical value of a [`Body`].
pub enum BodyView {
    Json(Seq<(Seq<char>, FieldView)>),
    Form(Seq<(Seq<char>, Seq<char>)>),
    Multipart(Seq<(Seq<char>, Seq<char>)>, Seq<(Seq<char>, Seq<char>)>),
    Raw(Seq<u8>),
}

impl View for Body {
    type V = BodyView;

    open spec fn view(&self) -> BodyView {
        match self {
            Body::Json(m) => BodyView::Json(pairs_view(m@)),
            Body::Form(p) => BodyView::Form(pairs_view(p@)),
            Body::Multipart(t, f) => BodyView::Multipart(pairs_view(t@), pairs_view(f@)),
            Body::Raw(b) => BodyView::Raw(b@),
        }
    }
}

pub open spec fn option_body_view(b: Option<Body>) -> Option<BodyView> {
    match b {
        Some(b) => Some(b@),
        None => None,
    }
}

/// The fields of a JSON body: later fields of a name replace the value of earlier ones.
pub open spec fn json_entries(items: Seq<RequestItem>) -> Seq<(Seq<char>, FieldView)>
    decreases items.len(),
{
    if items.len() == 0 {
        Seq::empty()
    } else {
        let m = json_entries(items.drop_last());
        match items.last() {
            RequestItem::JSONField(k, v) => map_insert(m, k@, FieldView::Json(v)),
            RequestItem::DataField(k, v) => map_insert(m, k@, FieldView::Text(v@)),
            _ => m,
        }
    }
}

/// The headers that the items set, under lowercase names: a later value for a name
/// replaces an earlier one, whatever the case it was written in.
pub open spec fn set_headers(items: Seq<RequestItem>) -> Seq<(Seq<char>, Seq<char>)>
    decreases items.len(),
{
    if items.len() == 0 {
        Seq::empty()
    } else {
        let m = set_headers(items.drop_last());
        match items.last() {
            RequestItem::HttpHeader(k, v) => map_insert(m, ascii_lower(k@), v@),
            _ => m,
        }
    }
}

/// The lowercase names of the headers that the items remove, in order.
pub open spec fn unset_names(items: Seq<RequestItem>) -> Seq<Seq<char>>
    decreases items.len(),
{
    if items.len() == 0 {
        Seq::empty()
    } else {
        let m = unset_names(items.drop_last());
        match items.last() {
            RequestItem::HttpHeaderToUnset(k) => m.push(ascii_lower(k@)),
            _ => m,
        }
    }
}

/// The query parameters of the items, in order, duplicates kept.
pub open spec fn query_pairs(items: Seq<RequestItem>) -> Seq<(Seq<char>, Seq<char>)>
    decreases items.len(),
{
    if items.len() == 0 {
        Seq::empty()
    } else {
        let m = query_pairs(items.drop_last());
        match items.last() {
            RequestItem::UrlParam(k, v) => m.push((k@, v@)),
            _ => m,
        }
    }
}

/// The string data fields of the items, in order, duplicates kept.
pub open spec fn data_pairs(items: Seq<RequestItem>) -> Seq<(Seq<char>, Seq<char>)>
    decreases items.len(),
{
    if items.len() == 0 {
        Seq::empty()
    } else {
        let m = data_pairs(items.drop_last());
        match items.last() {
            RequestItem::DataField(k, v) => m.push((k@, v@)),
            _ => m,
        }
    }
}

/// The file fields of the items as (name, path), in order, duplicates kept.
pub open spec fn file_pairs(items: Seq<RequestItem>) -> Seq<(Seq<char>, Seq<char>)>
    decreases items.len(),
{
    if items.len() == 0 {
        Seq::empty()
    } else {
        let m = file_pairs(items.drop_last());
        match items.last() {
            RequestItem::FormFile(k, v) => m.push((k@, v@)),
            _ => m,
        }
    }
}

pub open spec fn has_file(items: Seq<RequestItem>) -> bool {
    exists|i: int| 0 <= i < items.len() && items[i] is FormFile
}

pub open spec fn has_json(items: Seq<RequestItem>) -> bool {
    exists|i: int| 0 <= i < items.len() && items[i] is JSONField
}

/// The body that the items make under the given mode flags.
pub open spec fn body_spec(items: Seq<RequestItem>, as_form: bool, multipart: bool) -> Result<
    Option<BodyView>,
    (),
> {
    if !as_form {
        if has_file(items) {
            Err(())
        } else if json_entries(items).len() == 0 {
            Ok(None)
        } else {
            Ok(Some(BodyView::Json(json_entries(items))))
        }
    } else {
        if has_json(items) {
            Err(())
        } else if file_pairs(items).len() > 0 || multipart {
            Ok(Some(BodyView::Multipart(data_pairs(items), file_pairs(items))))
        } else if data_pairs(items).len() > 0 {
            Ok(Some(BodyView::Form(data_pairs(items))))
        } else {
            Ok(None)
        }
    }
}

pub proof fn lemma_json_entries_unique(items: Seq<RequestItem>)
    ensures
        keys_unique(json_entries(items)),
    decreases items.len(),
{
    if items.len() > 0 {
        let m = json_entries(items.drop_last());
        lemma_json_entries_unique(items.drop_last());
        match items.last() {
            RequestItem::JSONField(k, v) => lemma_insert_keeps_unique(m, k@, FieldView::Json(v)),
            RequestItem::DataField(k, v) => lemma_insert_keeps_unique(m, k@, FieldView::Text(v@)),
            _ => {},
        }
    }
}

pub proof fn lemma_set_headers_unique(items: Seq<RequestItem>)
    ensures
        keys_unique(set_headers(items)),
    decreases items.len(),
{
    if items.len() > 0 {
        let m = set_headers(items.drop_last());
        lemma_set_headers_unique(items.drop_last());
        match items.last() {
            RequestItem::HttpHeader(k, v) => lemma_insert_keeps_unique(m, ascii_lower(k@), v@),
            _ => {},
        }
    }
}

proof fn lemma_insert_keeps_unique<V>(m: Seq<(Seq<char>, V)>, k: Seq<char>, v: V)
    requires
        keys_unique(m),
    ensures
        keys_unique(map_insert(m, k, v)),
{
    if has_key(m, k) {
        let j = choose|j: int| 0 <= j < m.len() && m[j].0 == k;
        lemma_insert_at(m, j, k, v);
    } else {
        lemma_insert_new(m, k, v);
    }
}

pub open spec fn has_data(items: Seq<RequestItem>) -> bool {
    exists|i: int| 0 <= i < items.len() && items[i] is DataField
}

proof fn lemma_pairs_nonempty(items: Seq<RequestItem>)
    ensures
        file_pairs(items).len() > 0 <==> has_file(items),
        data_pairs(items).len() > 0 <==> has_data(items),
    decreases items.len(),
{
    if items.len() > 0 {
        let p = items.drop_last();
        lemma_pairs_nonempty(p);
        assert(has_file(p) ==> has_file(items)) by {
            if has_file(p) {
                let j = choose|j: int| 0 <= j < p.len() && p[j] is FormFile;
                assert(items[j] is FormFile);
            }
        }
        assert(has_data(p) ==> has_data(items)) by {
            if has_data(p) {
                let j = choose|j: int| 0 <= j < p.len() && p[j] is DataField;
                assert(items[j] is DataField);
            }
        }
        assert(has_file(items) ==> has_file(p) || items.last() is FormFile) by {
            if has_file(items) {
                let j = choose|j: int| 0 <= j < items.len() && items[j] is FormFile;
                if j < items.len() - 1 {
                    assert(p[j] is FormFile);
                }
            }
        }
        assert(has_data(items) ==> has_data(p) || items.last() is DataField) by {
            if has_data(items) {
                let j = choose|j: int| 0 <= j < items.len() && items[j] is DataField;
                if j < items.len() - 1 {
                    assert(p[j] is DataField);
                }
            }
        }
        assert(items.last() is FormFile ==> has_file(items)) by {
            if items.last() is FormFile {
                assert(items[items.len() - 1] is FormFile);
            }
        }
        assert(items.last() is DataField ==> has_data(items)) by {
            if items.last() is DataField {
                assert(items[items.len() - 1] is DataField);
            }
        }
    }
}

/// Whatever the mode, items that hold both a file field and a JSON field make no
/// body: assembly fails.
pub proof fn lemma_files_exclude_json(items: Seq<RequestItem>, as_form: bool, multipart: bool)
    requires
        has_file(items),
        has_json(items),
    ensures
        body_spec(items, as_form, multipart) is Err,
{
}

/// Under form mode, items that are all string data fields and file fields make a
/// multipart body exactly when there is a file, a URL-encoded form when there are
/// only data fields, and no body when there are neither.
pub proof fn lemma_form_body_shape(items: Seq<RequestItem>)
    requires
        forall|i: int| 0 <= i < items.len() ==> #[trigger] items[i] is DataField || items[i] is FormFile,
    ensures
        body_spec(items, true, false) matches Ok(Some(BodyView::Multipart(_, _))) <==> has_file(items),
        body_spec(items, true, false) matches Ok(Some(BodyView::Form(_))) <==> !has_file(items) && has_data(items),
        body_spec(items, true, false) == Ok::<Option<BodyView>, ()>(None) <==> !has_file(items) && !has_data(items),
{
    lemma_pairs_nonempty(items);
    assert(!has_json(items)) by {
        if has_json(items) {
            let j = choose|j: int| 0 <= j < items.len() && items[j] is JSONField;
            assert(items[j] is DataField || items[j] is FormFile);
        }
    }
}

/// The classified request items, in the order they were given.
pub struct RequestItems(Vec<RequestItem>);

impl View for RequestItems {
    type V = Seq<RequestItem>;

    closed spec fn view(&self) -> Seq<RequestItem> {
        self.0@
    }
}

impl RequestItems {
    pub fn new(request_items: Vec<RequestItem>) -> (r: RequestItems)
        ensures
            r@ == request_items@,
    {
        RequestItems(request_items)
    }

    /// The URL query parameters, in order, duplicates kept.
    pub fn query(&self) -> (r: Vec<(String, String)>)
        ensures
            pairs_view(r@) == query_pairs(self@),
    {
        let items = &self.0;
        let mut query: Vec<(String, String)> = Vec::new();
        let mut i: usize = 0;
        while i < items.len()
            invariant
                i <= items@.len(),
                items@ == self@,
                pairs_view(query@) == query_pairs(items@.take(i as int)),
            decreases items@.len() - i,
        {
            assert(items@.take(i + 1).drop_last() =~= items@.take(i as int));
            let ghost q0 = query@;
            match &items[i] {
                RequestItem::UrlParam(key, value) => {
                    query.push((key.clone(), value.clone()));
                    assert(pairs_view(query@) =~= pairs_view(q0).push((key@, value@)));
                },
                _ => {},
            }
            i = i + 1;
        }
        assert(items@.take(items@.len() as int) =~= items@);
        query
    }

    /// The headers that the items set, as an ordered map under lowercase names,
    /// and the lowercase names of the headers that they remove.
    pub fn headers(&self) -> (r: (Vec<(String, String)>, Vec<String>))
        ensures
            pairs_view(r.0@) == set_headers(self@),
            r.1@.map_values(|s: String| s@) == unset_names(self@),
    {
        let items = &self.0;
        let mut set: Vec<(String, String)> = Vec::new();
        let mut unset: Vec<String> = Vec::new();
        let mut i: usize = 0;
        while i < items.len()
            invariant
                i <= items@.len(),
                items@ == self@,
                pairs_view(set@) == set_headers(items@.take(i as int)),
                unset@.map_values(|s: String| s@) == unset_names(items@.take(i as int)),
            decreases items@.len() - i,
        {
            assert(items@.take(i + 1).drop_last() =~= items@.take(i as int));
            proof {
                lemma_set_headers_unique(items@.take(i as int));
            }
            let ghost u0 = unset@;
            match &items[i] {
                RequestItem::HttpHeader(key, value) => {
                    insert_pair(&mut set, to_ascii_lower(key.as_str()), value.clone());
                },
                RequestItem::HttpHeaderToUnset(key) => {
                    unset.push(to_ascii_lower(key.as_str()));
                    assert(unset@.map_values(|s: String| s@) =~= u0.map_values(|s: String| s@).push(
                        ascii_lower(key@),
                    ));
                },
                _ => {},
            }
            i = i + 1;
        }
        assert(items@.take(items@.len() as int) =~= items@);
        (set, unset)
    }

    /// Assembles the body: a JSON object unless `as_form`; under `as_form` a
    /// multipart form where there are files or `multipart` is asked for, else a
    /// URL-encoded form. `None` where no item contributes to the body.
    pub fn body(&self, as_form: bool, multipart: bool) -> (r: Result<Option<Body>, Error>)
        ensures
            match body_spec(self@, as_form, multipart) {
                Ok(b) => r matches Ok(b2) && option_body_view(b2) == b,
                Err(_) => r matches Err(Error::IncompatibleBodyFields),
            },
    {
        let items = &self.0;
        if !as_form {
            let mut body: Vec<(String, FieldValue)> = Vec::new();
            let mut i: usize = 0;
            while i < items.len()
                invariant
                    i <= items@.len(),
                    items@ == self@,
                    !as_form,
                    !has_file(items@.take(i as int)),
                    pairs_view(body@) == json_entries(items@.take(i as int)),
                decreases items@.len() - i,
            {
                assert(items@.take(i + 1).drop_last() =~= items@.take(i as int));
                proof {
                    lemma_json_entries_unique(items@.take(i as int));
                }
                match &items[i] {
                    RequestItem::JSONField(key, value) => {
                        insert_pair(&mut body, key.clone(), FieldValue::Json(value.clone()));
                    },
                    RequestItem::DataField(key, value) => {
                        insert_pair(&mut body, key.clone(), FieldValue::Text(value.clone()));
                    },
                    RequestItem::FormFile(_, _) => {
                        assert(has_file(self@)) by {
                            assert(self@[i as int] is FormFile);
                        }
                        return Err(Error::IncompatibleBodyFields);
                    },
                    _ => {},
                }
                assert(!has_file(items@.take(i + 1))) by {
                    if has_file(items@.take(i + 1)) {
                        let j = choose|j: int| 0 <= j < i + 1 && #[trigger] items@.take(i + 1)[j] is FormFile;
                        if j < i {
                            assert(items@.take(i as int)[j] is FormFile);
                        }
                    }
                }
                i = i + 1;
            }
            assert(items@.take(items@.len() as int) =~= items@);
            if body.len() > 0 {
                Ok(Some(Body::Json(body)))
            } else {
                Ok(None)
            }
        } else {
            let mut text_fields: Vec<(String, String)> = Vec::new();
            let mut files: Vec<(String, String)> = Vec::new();
            let mut i: usize = 0;
            while i < items.len()
                invariant
                    i <= items@.len(),
                    items@ == self@,
                    as_form,
                    !has_json(items@.take(i as int)),
                    pairs_view(text_fields@) == data_pairs(items@.take(i as int)),
                    pairs_view(files@) == file_pairs(items@.take(i as int)),
                decreases items@.len() - i,
            {
                assert(items@.take(i + 1).drop_last() =~= items@.take(i as int));
                let ghost t0 = text_fields@;
                let ghost f0 = files@;
                match &items[i] {
                    RequestItem::JSONField(_, _) => {
                        assert(has_json(self@)) by {
                            assert(self@[i as int] is JSONField);
                        }
                        return Err(Error::IncompatibleBodyFields);
                    },
                    RequestItem::DataField(key, value) => {
                        text_fields.push((key.clone(), value.clone()));
                        assert(pairs_view(text_fields@) =~= pairs_view(t0).push((key@, value@)));
                    },
                    RequestItem::FormFile(key, value) => {
                        files.push((key.clone(), value.clone()));
                        assert(pairs_view(files@) =~= pairs_view(f0).push((key@, value@)));
                    },
                    _ => {},
                }
                assert(!has_json(items@.take(i + 1))) by {
                    if has_json(items@.take(i + 1)) {
                        let j = choose|j: int| 0 <= j < i + 1 && #[trigger] items@.take(i + 1)[j] is JSONField;
                        if j < i {
                            assert(items@.take(i as int)[j] is JSONField);
                        }
                    }
                }
                i = i + 1;
            }
            assert(items@.take(items@.len() as int) =~= items@);
            if files.len() > 0 || multipart {
                Ok(Some(Body::Multipart(text_fields, files)))
            } else if text_fields.len() > 0 {
                Ok(Some(Body::Form(text_fields)))
            } else {
                Ok(None)
            }
        }
    }
}

} // verus!
