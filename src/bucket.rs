use vstd::prelude::*;
use vstd::string::*;

use crate::text::str_eq;

verus! {

/// The result of listing the buckets of an account.
#[derive(Clone, Debug)]
pub struct ListBuckets {
    prefix: String,
    marker: String,
    max_keys: String,
    is_truncated: bool,
    next_marker: String,
    id: String,
    display_name: String,
    buckets: Vec<Bucket>,
}

/// What a bucket listing holds.
pub struct ListBucketsView {
    pub prefix: Seq<char>,
    pub marker: Seq<char>,
    pub max_keys: Seq<char>,
    pub is_truncated: bool,
    pub next_marker: Seq<char>,
    pub id: Seq<char>,
    pub display_name: Seq<char>,
    pub buckets: Seq<Bucket>,
}

impl View for ListBuckets {
    type V = ListBucketsView;

    closed spec fn view(&self) -> ListBucketsView {
        ListBucketsView {
            prefix: self.prefix@,
            marker: self.marker@,
            max_keys: self.max_keys@,
            is_truncated: self.is_truncated,
            next_marker: self.next_marker@,
            id: self.id@,
            display_name: self.display_name@,
            buckets: self.buckets@,
        }
    }
}

impl ListBuckets {
    pub fn new(
        prefix: String,
        marker: String,
        max_keys: String,
        is_truncated: bool,
        next_marker: String,
        id: String,
        display_name: String,
        buckets: Vec<Bucket>,
    ) -> (r: Self)
        ensures
            r@.prefix == prefix@,
            r@.marker == marker@,
            r@.max_keys == max_keys@,
            r@.is_truncated == is_truncated,
            r@.next_marker == next_marker@,
            r@.id == id@,
            r@.display_name == display_name@,
            r@.buckets == buckets@,
    {
        ListBuckets { prefix, marker, max_keys, is_truncated, next_marker, id, display_name, buckets }
    }

    pub fn prefix(&self) -> (r: &str)
        ensures
            r@ == self@.prefix,
    {
        self.prefix.as_str()
    }

    pub fn marker(&self) -> (r: &str)
        ensures
            r@ == self@.marker,
    {
        self.marker.as_str()
    }

    pub fn max_keys(&self) -> (r: &str)
        ensures
            r@ == self@.max_keys,
    {
        self.max_keys.as_str()
    }

    pub fn is_truncated(&self) -> (r: bool)
        ensures
            r == self@.is_truncated,
    {
        self.is_truncated
    }

    pub fn next_marker(&self) -> (r: &str)
        ensures
            r@ == self@.next_marker,
    {
        self.next_marker.as_str()
    }

    pub fn id(&self) -> (r: &str)
        ensures
            r@ == self@.id,
    {
        self.id.as_str()
    }

    pub fn display_name(&self) -> (r: &str)
        ensures
            r@ == self@.display_name,
    {
        self.display_name.as_str()
    }

    pub fn buckets(&self) -> (r: &Vec<Bucket>)
        ensures
            r@ == self@.buckets,
    {
        &self.buckets
    }
}

/// One bucket of a listing.
#[derive(Clone, Debug)]
pub struct Bucket {
    name: String,
    create_date: String,
    location: String,
    extranet_endpoint: String,
    intranet_endpoint: String,
    storage_class: String,
}

/// What a bucket record holds.
pub struct BucketView {
    pub name: Seq<char>,
    pub create_date: Seq<char>,
    pub location: Seq<char>,
    pub extranet_endpoint: Seq<char>,
    pub intranet_endpoint: Seq<char>,
    pub storage_class: Seq<char>,
}

impl View for Bucket {
    type V = BucketView;

    closed spec fn view(&self) -> BucketView {
        BucketView {
            name: self.name@,
            create_date: self.create_date@,
            location: self.location@,
            extranet_endpoint: self.extranet_endpoint@,
            intranet_endpoint: self.intranet_endpoint@,
            storage_class: self.storage_class@,
        }
    }
}

impl Bucket {
    pub fn new(
        name: String,
        create_date: String,
        location: String,
        extranet_endpoint: String,
        intranet_endpoint: String,
        storage_class: String,
    ) -> (r: Self)
        ensures
            r@.name == name@,
            r@.create_date == create_date@,
            r@.location == location@,
            r@.extranet_endpoint == extranet_endpoint@,
            r@.intranet_endpoint == intranet_endpoint@,
            r@.storage_class == storage_class@,
    {
        Bucket { name, create_date, location, extranet_endpoint, intranet_endpoint, storage_class }
    }

    pub fn name(&self) -> (r: &str)
        ensures
            r@ == self@.name,
    {
        self.name.as_str()
    }

    pub fn create_data(&self) -> (r: &str)
        ensures
            r@ == self@.create_date,
    {
        self.create_date.as_str()
    }

    pub fn location(&self) -> (r: &str)
        ensures
            r@ == self@.location,
    {
        self.location.as_str()
    }

    pub fn extranet_endpoint(&self) -> (r: &str)
        ensures
            r@ == self@.extranet_endpoint,
    {
        self.extranet_endpoint.as_str()
    }

    pub fn intranet_endpoint(&self) -> (r: &str)
        ensures
            r@ == self@.intranet_endpoint,
    {
        self.intranet_endpoint.as_str()
    }

    pub fn storage_class(&self) -> (r: &str)
        ensures
            r@ == self@.storage_class,
    {
        self.storage_class.as_str()
    }
}


/// Builds a bucket listing from the elements of the provider's XML answer, read in
/// document order.
#[derive(Debug)]
pub struct ListingDecoder {
    prefix: String,
    marker: String,
    max_keys: String,
    is_truncated: bool,
    next_marker: String,
    id: String,
    display_name: String,
    name: String,
    create_date: String,
    extranet_endpoint: String,
    intranet_endpoint: String,
    location: String,
    storage_class: String,
    buckets: Vec<Bucket>,
}

/// What a decoder has gathered: the listing's fields, the fields of the bucket element
/// being read, and the buckets read so far.
pub struct ListingDecoderView {
    pub prefix: Seq<char>,
    pub marker: Seq<char>,
    pub max_keys: Seq<char>,
    pub is_truncated: bool,
    pub next_marker: Seq<char>,
    pub id: Seq<char>,
    pub display_name: Seq<char>,
    pub name: Seq<char>,
    pub create_date: Seq<char>,
    pub extranet_endpoint: Seq<char>,
    pub intranet_endpoint: Seq<char>,
    pub location: Seq<char>,
    pub storage_class: Seq<char>,
    pub buckets: Seq<Bucket>,
}

impl View for ListingDecoder {
    type V = ListingDecoderView;

    closed spec fn view(&self) -> ListingDecoderView {
        ListingDecoderView {
            prefix: self.prefix@,
            marker: self.marker@,
            max_keys: self.max_keys@,
            is_truncated: self.is_truncated,
            next_marker: self.next_marker@,
            id: self.id@,
            display_name: self.display_name@,
            name: self.name@,
            create_date: self.create_date@,
            extranet_endpoint: self.extranet_endpoint@,
            intranet_endpoint: self.intranet_endpoint@,
            location: self.location@,
            storage_class: self.storage_class@,
            buckets: self.buckets@,
        }
    }
}

/// The elements whose text the decoder takes.
pub open spec fn reads_text(tag: Seq<char>) -> bool {
    tag == "Prefix"@
        || tag == "Marker"@
        || tag == "MaxKeys"@
        || tag == "IsTruncated"@
        || tag == "NextMarker"@
        || tag == "ID"@
        || tag == "DisplayName"@
        || tag == "Name"@
        || tag == "CreationDate"@
        || tag == "ExtranetEndpoint"@
        || tag == "IntranetEndpoint"@
        || tag == "Location"@
        || tag == "StorageClass"@
}

/// The decoder after the text `text` of an element `tag`.
pub open spec fn text_applied(d: ListingDecoderView, tag: Seq<char>, text: Seq<char>) -> ListingDecoderView {
    if tag == "Prefix"@ {
        ListingDecoderView { prefix: text, ..d }
    } else if tag == "Marker"@ {
        ListingDecoderView { marker: text, ..d }
    } else if tag == "MaxKeys"@ {
        ListingDecoderView { max_keys: text, ..d }
    } else if tag == "IsTruncated"@ {
        ListingDecoderView { is_truncated: text == "true"@, ..d }
    } else if tag == "NextMarker"@ {
        ListingDecoderView { next_marker: text, ..d }
    } else if tag == "ID"@ {
        ListingDecoderView { id: text, ..d }
    } else if tag == "DisplayName"@ {
        ListingDecoderView { display_name: text, ..d }
    } else if tag == "Name"@ {
        ListingDecoderView { name: text, ..d }
    } else if tag == "CreationDate"@ {
        ListingDecoderView { create_date: text, ..d }
    } else if tag == "ExtranetEndpoint"@ {
        ListingDecoderView { extranet_endpoint: text, ..d }
    } else if tag == "IntranetEndpoint"@ {
        ListingDecoderView { intranet_endpoint: text, ..d }
    } else if tag == "Location"@ {
        ListingDecoderView { location: text, ..d }
    } else if tag == "StorageClass"@ {
        ListingDecoderView { storage_class: text, ..d }
    } else {
        d
    }
}

impl ListingDecoder {
    pub fn new() -> (r: Self)
        ensures
            r@.prefix == Seq::<char>::empty(),
            r@.marker == Seq::<char>::empty(),
            r@.max_keys == Seq::<char>::empty(),
            !r@.is_truncated,
            r@.next_marker == Seq::<char>::empty(),
            r@.id == Seq::<char>::empty(),
            r@.display_name == Seq::<char>::empty(),
            r@.name == Seq::<char>::empty(),
            r@.create_date == Seq::<char>::empty(),
            r@.extranet_endpoint == Seq::<char>::empty(),
            r@.intranet_endpoint == Seq::<char>::empty(),
            r@.location == Seq::<char>::empty(),
            r@.storage_class == Seq::<char>::empty(),
            r@.buckets == Seq::<Bucket>::empty(),
    {
        ListingDecoder {
            prefix: String::new(),
            marker: String::new(),
            max_keys: String::new(),
            is_truncated: false,
            next_marker: String::new(),
            id: String::new(),
            display_name: String::new(),
            name: String::new(),
            create_date: String::new(),
            extranet_endpoint: String::new(),
            intranet_endpoint: String::new(),
            location: String::new(),
            storage_class: String::new(),
            buckets: Vec::new(),
        }
    }

    /// Whether the text of an element `tag` is to be read and handed to `on_text`.
    pub fn wants_text(tag: &str) -> (r: bool)
        ensures
            r == reads_text(tag@),
    {
        str_eq(tag, "Prefix")
            || str_eq(tag, "Marker")
            || str_eq(tag, "MaxKeys")
            || str_eq(tag, "IsTruncated")
            || str_eq(tag, "NextMarker")
            || str_eq(tag, "ID")
            || str_eq(tag, "DisplayName")
            || str_eq(tag, "Name")
            || str_eq(tag, "CreationDate")
            || str_eq(tag, "ExtranetEndpoint")
            || str_eq(tag, "IntranetEndpoint")
            || str_eq(tag, "Location")
            || str_eq(tag, "StorageClass")
    }

    /// Takes the text of an element `tag`.
    pub fn on_text(&mut self, tag: &str, text: String)
        ensures
            final(self)@ == text_applied(old(self)@, tag@, text@),
    {
        if str_eq(tag, "Prefix") {
            self.prefix = text;
        } else if str_eq(tag, "Marker") {
            self.marker = text;
        } else if str_eq(tag, "MaxKeys") {
            self.max_keys = text;
        } else if str_eq(tag, "IsTruncated") {
            self.is_truncated = str_eq(text.as_str(), "true");
        } else if str_eq(tag, "NextMarker") {
            self.next_marker = text;
        } else if str_eq(tag, "ID") {
            self.id = text;
        } else if str_eq(tag, "DisplayName") {
            self.display_name = text;
        } else if str_eq(tag, "Name") {
            self.name = text;
        } else if str_eq(tag, "CreationDate") {
            self.create_date = text;
        } else if str_eq(tag, "ExtranetEndpoint") {
            self.extranet_endpoint = text;
        } else if str_eq(tag, "IntranetEndpoint") {
            self.intranet_endpoint = text;
        } else if str_eq(tag, "Location") {
            self.location = text;
        } else if str_eq(tag, "StorageClass") {
            self.storage_class = text;
        }
    }

    /// An element `tag` opens: a `Bucket` element starts a bucket with empty fields.
    pub fn on_start(&mut self, tag: &str)
        ensures
            tag@ == "Bucket"@ ==> final(self)@ == (ListingDecoderView {
                name: Seq::<char>::empty(),
                create_date: Seq::<char>::empty(),
                extranet_endpoint: Seq::<char>::empty(),
                intranet_endpoint: Seq::<char>::empty(),
                location: Seq::<char>::empty(),
                storage_class: Seq::<char>::empty(),
                ..old(self)@
            }),
            tag@ != "Bucket"@ ==> final(self)@ == old(self)@,
    {
        if str_eq(tag, "Bucket") {
            self.name = String::new();
            self.create_date = String::new();
            self.extranet_endpoint = String::new();
            self.intranet_endpoint = String::new();
            self.location = String::new();
            self.storage_class = String::new();
        }
    }

    /// An element `tag` closes: a `Bucket` element adds the bucket read to the listing.
    pub fn on_end(&mut self, tag: &str)
        ensures
            tag@ == "Bucket"@ ==> ({
                let d = old(self)@;
                let e = final(self)@;
                &&& e.buckets.len() == d.buckets.len() + 1
                &&& e.buckets.drop_last() == d.buckets
                &&& e.buckets.last()@ == (BucketView {
                    name: d.name,
                    create_date: d.create_date,
                    extranet_endpoint: d.extranet_endpoint,
                    intranet_endpoint: d.intranet_endpoint,
                    location: d.location,
                    storage_class: d.storage_class,
                })
                &&& e == (ListingDecoderView { buckets: e.buckets, ..d })
            }),
            tag@ != "Bucket"@ ==> final(self)@ == old(self)@,
    {
        if str_eq(tag, "Bucket") {
            let b = Bucket::new(
                self.name.clone(),
                self.create_date.clone(),
                self.location.clone(),
                self.extranet_endpoint.clone(),
                self.intranet_endpoint.clone(),
                self.storage_class.clone(),
            );
            self.buckets.push(b);
            assert(self.buckets@.drop_last() =~= old(self).buckets@);
        }
    }

    /// The listing read, at the end of the document.
    pub fn finish(self) -> (r: ListBuckets)
        ensures
            r@ == (ListBucketsView {
                prefix: self@.prefix,
                marker: self@.marker,
                max_keys: self@.max_keys,
                is_truncated: self@.is_truncated,
                next_marker: self@.next_marker,
                id: self@.id,
                display_name: self@.display_name,
                buckets: self@.buckets,
            }),
    {
        ListBuckets::new(
            self.prefix,
            self.marker,
            self.max_keys,
            self.is_truncated,
            self.next_marker,
            self.id,
            self.display_name,
            self.buckets,
        )
    }
}

} // verus!
