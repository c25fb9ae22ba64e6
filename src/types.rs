//! Options of the storage operations, and the listing result with the
//! builder that assembles it element by element.

use vstd::prelude::*;
use crate::errors::{Error, ParseError};
use crate::text::{decimal, decimal_string, str_eq};

verus! {

/// A header entry for an option that is set; nothing for one that is not.
pub open spec fn opt_entry(name: Seq<char>, v: Option<String>) -> Seq<(Seq<char>, Seq<char>)> {
    match v {
        Some(s) => seq![(name, s@)],
        None => Seq::empty(),
    }
}

/// A query parameter for an option that is set; nothing for one that is not.
pub open spec fn opt_param(name: Seq<char>, v: Option<String>) -> Seq<(Seq<char>, Option<Seq<char>>)> {
    match v {
        Some(s) => seq![(name, Some(s@))],
        None => Seq::empty(),
    }
}

fn to_owned_opt(o: Option<&str>) -> (r: Option<String>)
    ensures
        r.is_some() == o.is_some(),
        r.is_some() ==> r.unwrap()@ == o.unwrap()@,
{
    match o {
        Some(s) => Some(String::from_str(s)),
        None => None,
    }
}

fn push_opt(v: &mut Vec<(String, String)>, name: &str, o: &Option<String>)
    ensures
        final(v).deep_view() == old(v).deep_view() + opt_entry(name@, *o),
{
    match o {
        Some(s) => {
            v.push((String::from_str(name), s.clone()));
            assert(final(v).deep_view() =~= old(v).deep_view() + opt_entry(name@, *o));
        },
        None => {
            assert(final(v).deep_view() =~= old(v).deep_view() + opt_entry(name@, *o));
        },
    }
}

fn push_param(v: &mut Vec<(String, Option<String>)>, name: &str, o: &Option<String>)
    ensures
        final(v).deep_view() == old(v).deep_view() + opt_param(name@, *o),
{
    match o {
        Some(s) => {
            v.push((String::from_str(name), Some(s.clone())));
            assert(final(v).deep_view() =~= old(v).deep_view() + opt_param(name@, *o));
        },
        None => {
            assert(final(v).deep_view() =~= old(v).deep_view() + opt_param(name@, *o));
        },
    }
}

/// Options of an upload or a copy: metadata, and the headers to set.
#[derive(Clone, Debug, Default)]
pub struct PutOrCopyOptions {
    pub meta: Option<Vec<(String, String)>>,
    pub content_type: Option<String>,
    pub cache_control: Option<String>,
    pub content_disposition: Option<String>,
    pub content_encoding: Option<String>,
}

impl PutOrCopyOptions {
    pub fn new(
        meta: Option<Vec<(String, String)>>,
        content_type: Option<&str>,
        cache_control: Option<&str>,
        content_disposition: Option<&str>,
        content_encoding: Option<&str>,
    ) -> (r: PutOrCopyOptions)
        ensures
            r.meta == meta,
            r.content_type.is_some() == content_type.is_some(),
            r.content_type.is_some() ==> r.content_type.unwrap()@ == content_type.unwrap()@,
            r.cache_control.is_some() == cache_control.is_some(),
            r.cache_control.is_some() ==> r.cache_control.unwrap()@ == cache_control.unwrap()@,
            r.content_disposition.is_some() == content_disposition.is_some(),
            r.content_disposition.is_some() ==> r.content_disposition.unwrap()@
                == content_disposition.unwrap()@,
            r.content_encoding.is_some() == content_encoding.is_some(),
            r.content_encoding.is_some() ==> r.content_encoding.unwrap()@
                == content_encoding.unwrap()@,
    {
        PutOrCopyOptions {
            meta,
            content_type: to_owned_opt(content_type),
            cache_control: to_owned_opt(cache_control),
            content_disposition: to_owned_opt(content_disposition),
            content_encoding: to_owned_opt(content_encoding),
        }
    }

    /// The headers these options set, each under its own name.
    pub open spec fn spec_headers(&self) -> Seq<(Seq<char>, Seq<char>)> {
        opt_entry("cache-control"@, self.cache_control) + opt_entry("content-type"@, self.content_type)
            + opt_entry("content-disposition"@, self.content_disposition) + opt_entry(
            "content-encoding"@,
            self.content_encoding,
        )
    }

    /// The headers these options set.
    pub fn as_headers(&self) -> (r: Vec<(String, String)>)
        ensures
            r.deep_view() == self.spec_headers(),
    {
        let mut r: Vec<(String, String)> = Vec::new();
        assert(r.deep_view() =~= Seq::empty());
        push_opt(&mut r, "cache-control", &self.cache_control);
        push_opt(&mut r, "content-type", &self.content_type);
        push_opt(&mut r, "content-disposition", &self.content_disposition);
        push_opt(&mut r, "content-encoding", &self.content_encoding);
        assert(r.deep_view() =~= self.spec_headers());
        r
    }
}

/// The page size of a listing where none is asked for.
pub const DEFAULT_MAX_KEYS: usize = 1000;

/// Options of a listing.
#[derive(Clone, Debug, Default)]
pub struct ListOptions {
    pub prefix: Option<String>,
    pub marker: Option<String>,
    pub delimiter: Option<String>,
    pub max_keys: Option<usize>,
}

impl ListOptions {
    pub fn new(
        prefix: Option<&str>,
        marker: Option<&str>,
        delimiter: Option<&str>,
        max_keys: Option<usize>,
    ) -> (r: ListOptions)
        ensures
            r.prefix.is_some() == prefix.is_some(),
            r.prefix.is_some() ==> r.prefix.unwrap()@ == prefix.unwrap()@,
            r.marker.is_some() == marker.is_some(),
            r.marker.is_some() ==> r.marker.unwrap()@ == marker.unwrap()@,
            r.delimiter.is_some() == delimiter.is_some(),
            r.delimiter.is_some() ==> r.delimiter.unwrap()@ == delimiter.unwrap()@,
            r.max_keys == max_keys,
    {
        ListOptions {
            prefix: to_owned_opt(prefix),
            marker: to_owned_opt(marker),
            delimiter: to_owned_opt(delimiter),
            max_keys,
        }
    }

    /// The query parameters of these options: those set, then the page size.
    pub open spec fn spec_params(&self) -> Seq<(Seq<char>, Option<Seq<char>>)> {
        opt_param("prefix"@, self.prefix) + opt_param("marker"@, self.marker) + opt_param(
            "delimiter"@,
            self.delimiter,
        ) + seq![
            ("max-keys"@, Some(decimal(
                match self.max_keys {
                    Some(n) => n as nat,
                    None => DEFAULT_MAX_KEYS as nat,
                },
            ))),
        ]
    }

    /// The query parameters of these options.
    pub fn to_params(&self) -> (r: Vec<(String, Option<String>)>)
        ensures
            r.deep_view() == self.spec_params(),
    {
        let mut r: Vec<(String, Option<String>)> = Vec::new();
        assert(r.deep_view() =~= Seq::empty());
        push_param(&mut r, "prefix", &self.prefix);
        push_param(&mut r, "marker", &self.marker);
        push_param(&mut r, "delimiter", &self.delimiter);
        let n = match self.max_keys {
            Some(n) => n,
            None => DEFAULT_MAX_KEYS,
        };
        let ghost before = r.deep_view();
        r.push((String::from_str("max-keys"), Some(decimal_string(n as u64))));
        assert(r.deep_view() =~= before.push(("max-keys"@, Some(decimal(n as nat)))));
        assert(r.deep_view() =~= self.spec_params());
        r
    }
}

/// Options of a presigned URL: the method (GET where none is given) and the
/// expiry time in seconds since the epoch (an hour from now where none is
/// given).
#[derive(Clone, Debug, Default)]
pub struct SignedUrlOptions {
    pub method: Option<String>,
    pub expires: Option<u64>,
}

impl SignedUrlOptions {
    pub fn new(method: Option<&str>, expires: Option<u64>) -> (r: SignedUrlOptions)
        ensures
            r.method.is_some() == method.is_some(),
            r.method.is_some() ==> r.method.unwrap()@ == method.unwrap()@,
            r.expires == expires,
    {
        SignedUrlOptions { method: to_owned_opt(method), expires }
    }
}

/// One object of a listing.
#[derive(Clone, Debug, Default)]
pub struct ObjectDetails {
    pub key: String,
    pub last_modified: String,
    pub e_tag: String,
    pub size: String,
}

/// A page of a listing.
#[derive(Clone, Debug, Default)]
pub struct ListDetailsResp {
    pub objects: Vec<ObjectDetails>,
    /// More objects follow this page.
    pub is_truncated: bool,
    pub prefix: String,
    /// Where the next page starts.
    pub next_marker: String,
}

impl ListDetailsResp {
    /// The keys of the objects, in order.
    pub fn to_obj_names(self) -> (r: Vec<String>)
        ensures
            r@.len() == self.objects@.len(),
            forall|i: int| 0 <= i < r@.len() ==> #[trigger] r@[i]@ == self.objects@[i].key@,
    {
        let mut r: Vec<String> = Vec::new();
        let mut i: usize = 0;
        while i < self.objects.len()
            invariant
                i <= self.objects@.len(),
                r@.len() == i,
                forall|j: int| 0 <= j < i ==> #[trigger] r@[j]@ == self.objects@[j].key@,
            decreases self.objects@.len() - i,
        {
            r.push(self.objects[i].key.clone());
            i = i + 1;
        }
        r
    }
}

/// The view of an object of a listing: key, last modified, tag, size.
pub open spec fn object_view(o: ObjectDetails) -> (Seq<char>, Seq<char>, Seq<char>, Seq<char>) {
    (o.key@, o.last_modified@, o.e_tag@, o.size@)
}

/// The elements of a listing that carry text.
pub open spec fn is_list_field(tag: Seq<char>) -> bool {
    ||| tag == "Key"@ ||| tag == "LastModified"@ ||| tag == "ETag"@ ||| tag == "Size"@
    ||| tag == "IsTruncated"@ ||| tag == "NextContinuationToken"@ ||| tag == "Prefixes"@
}

/// Assembles a listing from its elements, as a reader meets them.
#[derive(Clone, Debug, Default)]
pub struct ListBuilder {
    pub result: ListDetailsResp,
    /// The object whose elements are being read.
    pub current: ObjectDetails,
}

impl ListBuilder {
    pub fn new() -> (r: ListBuilder)
        ensures
            r.result.objects@.len() == 0,
            !r.result.is_truncated,
            r.result.prefix@.len() == 0,
            r.result.next_marker@.len() == 0,
            object_view(r.current) == (Seq::<char>::empty(), Seq::<char>::empty(), Seq::<char>::empty(), Seq::<char>::empty()),
    {
        ListBuilder {
            result: ListDetailsResp {
                objects: Vec::new(),
                is_truncated: false,
                prefix: String::new(),
                next_marker: String::new(),
            },
            current: ObjectDetails {
                key: String::new(),
                last_modified: String::new(),
                e_tag: String::new(),
                size: String::new(),
            },
        }
    }

    /// Whether the text of element `tag` is read.
    pub fn wants_text(tag: &str) -> (r: bool)
        ensures
            r == is_list_field(tag@),
    {
        str_eq(tag, "Key") || str_eq(tag, "LastModified") || str_eq(tag, "ETag") || str_eq(tag, "Size")
            || str_eq(tag, "IsTruncated") || str_eq(tag, "NextContinuationToken") || str_eq(
            tag,
            "Prefixes",
        )
    }

    /// Takes in element `tag` with text `text`: an object field goes to the
    /// current object, a page field to the page. `IsTruncated` must read
    /// `true` or `false`; other elements are passed over.
    pub fn on_text(&mut self, tag: &str, text: &str) -> (r: Result<(), Error>)
        ensures
            tag@ == "Key"@ ==> r.is_ok() && final(self).current.key@ == text@,
            tag@ == "LastModified"@ ==> r.is_ok() && final(self).current.last_modified@ == text@,
            tag@ == "ETag"@ ==> r.is_ok() && final(self).current.e_tag@ == text@,
            tag@ == "Size"@ ==> r.is_ok() && final(self).current.size@ == text@,
            tag@ == "NextContinuationToken"@ ==> r.is_ok() && final(self).result.next_marker@ == text@,
            tag@ == "Prefixes"@ ==> r.is_ok() && final(self).result.prefix@ == text@,
            tag@ == "IsTruncated"@ ==> (r.is_ok() == (text@ == "true"@ || text@ == "false"@)) && (
            r.is_ok() ==> final(self).result.is_truncated == (text@ == "true"@)),
            tag@ == "IsTruncated"@ && r.is_err() ==> r->Err_0 is Parse && r->Err_0->Parse_0 is InvalidFormat,
            final(self).result.objects == old(self).result.objects,
            tag@ != "Key"@ ==> final(self).current.key == old(self).current.key,
            tag@ != "LastModified"@ ==> final(self).current.last_modified
                == old(self).current.last_modified,
            tag@ != "ETag"@ ==> final(self).current.e_tag == old(self).current.e_tag,
            tag@ != "Size"@ ==> final(self).current.size == old(self).current.size,
            tag@ != "NextContinuationToken"@ ==> final(self).result.next_marker
                == old(self).result.next_marker,
            tag@ != "Prefixes"@ ==> final(self).result.prefix == old(self).result.prefix,
            tag@ != "IsTruncated"@ ==> final(self).result.is_truncated == old(self).result.is_truncated,
            !is_list_field(tag@) ==> r.is_ok(),
    {
        proof {
            reveal_strlit("Key");
            reveal_strlit("LastModified");
            reveal_strlit("ETag");
            reveal_strlit("Size");
            reveal_strlit("NextContinuationToken");
            reveal_strlit("Prefixes");
            reveal_strlit("IsTruncated");
            assert("Key"@.len() == 3 && "LastModified"@.len() == 12 && "ETag"@.len() == 4 && "Size"@.len()
                == 4);
            assert("Key"@ != "LastModified"@ && "Key"@ != "ETag"@ && "Key"@ != "Size"@);
            assert("LastModified"@ != "ETag"@ && "LastModified"@ != "Size"@);
            assert("ETag"@[0] != "Size"@[0]);
            reveal_strlit("true");
            reveal_strlit("false");
            assert("NextContinuationToken"@.len() == 21 && "Prefixes"@.len() == 8
                && "IsTruncated"@.len() == 11 && "true"@.len() == 4 && "false"@.len() == 5);
        }
        if str_eq(tag, "Key") {
            self.current.key = String::from_str(text);
        } else if str_eq(tag, "LastModified") {
            self.current.last_modified = String::from_str(text);
        } else if str_eq(tag, "ETag") {
            self.current.e_tag = String::from_str(text);
        } else if str_eq(tag, "Size") {
            self.current.size = String::from_str(text);
        } else if str_eq(tag, "NextContinuationToken") {
            self.result.next_marker = String::from_str(text);
        } else if str_eq(tag, "Prefixes") {
            self.result.prefix = String::from_str(text);
        } else if str_eq(tag, "IsTruncated") {
            if str_eq(text, "true") {
                self.result.is_truncated = true;
            } else if str_eq(text, "false") {
                self.result.is_truncated = false;
            } else {
                return Err(
                    Error::Parse(
                        ParseError::InvalidFormat {
                            msg: String::from_str("Failed parsing content IsTruncated to bool"),
                        },
                    ),
                );
            }
        }
        Ok(())
    }

    /// Takes in the end of element `tag`: the end of `Contents` closes the
    /// current object, which joins the page, and starts a fresh one.
    pub fn on_end(&mut self, tag: &str)
        ensures
            tag@ == "Contents"@ ==> final(self).result.objects@ == old(self).result.objects@.push(
                old(self).current,
            ) && object_view(final(self).current) == (Seq::<char>::empty(), Seq::<char>::empty(), Seq::<char>::empty(), Seq::<char>::empty()),
            tag@ != "Contents"@ ==> final(self).result.objects == old(self).result.objects
                && final(self).current == old(self).current,
            final(self).result.is_truncated == old(self).result.is_truncated,
            final(self).result.prefix == old(self).result.prefix,
            final(self).result.next_marker == old(self).result.next_marker,
    {
        if str_eq(tag, "Contents") {
            let fresh = ObjectDetails {
                key: String::new(),
                last_modified: String::new(),
                e_tag: String::new(),
                size: String::new(),
            };
            let done = ObjectDetails {
                key: self.current.key.clone(),
                last_modified: self.current.last_modified.clone(),
                e_tag: self.current.e_tag.clone(),
                size: self.current.size.clone(),
            };
            self.current = fresh;
            self.result.objects.push(done);
        }
    }

    /// The page as read.
    pub fn finish(self) -> (r: ListDetailsResp)
        ensures
            r == self.result,
    {
        self.result
    }
}

} // verus!
