//! References to encoded values, compared by decoding on demand.

use std::cmp::Ordering;
use std::sync::Arc;
use vstd::prelude::*;
use crate::data_type::DataType;
use crate::error::Error;
use crate::protocol::cursor::Cursor;
use crate::protocol::deserialize_stream::DeserializeStream;
use crate::protocol::layout::unpacked_int;
use crate::storage::MemoryPage;

verus! {

/// How two INTEGER values stand to each other.
pub open spec fn order_of(a: i32, b: i32) -> Ordering {
    if a < b {
        Ordering::Less
    } else if a == b {
        Ordering::Equal
    } else {
        Ordering::Greater
    }
}

/// `Arc::ptr_eq`: whether the two handles share one allocation. Handles
/// that do hold the same page; handles that do not may still hold equal
/// bytes.
#[verifier::external_body]
fn same_allocation(a: &Arc<MemoryPage>, b: &Arc<MemoryPage>) -> (same: bool)
    ensures
        same ==> a@ == b@,
{
    Arc::ptr_eq(a, b)
}

/// Reference to indexed data: a page, an offset in it, and the type of the
/// value encoded there. It owns no data and is never changed.
pub struct DataReference {
    data_type: DataType,
    page: Arc<MemoryPage>,
    pos: usize,
}

impl DataReference {
    /// The type of the value referred to.
    pub closed spec fn spec_data_type(&self) -> DataType {
        self.data_type
    }

    /// The page referred to and the offset in it.
    pub closed spec fn cursor(&self) -> Cursor {
        Cursor { page: self.page@, position: self.pos as nat }
    }

    /// What decoding the value as an INTEGER gives.
    pub open spec fn int_field(&self) -> Result<i32, Error> {
        if self.data_type() == DataType::INTEGER {
            unpacked_int(self.cursor().remaining())
        } else {
            Err(Error::TypeMismatch)
        }
    }

    /// What comparing with `other` gives, where `same_page` says whether
    /// the two references are known to point into one and the same page.
    ///
    /// References of different types are not comparable. References to the
    /// same offset of the same page are equal, whatever their type, and
    /// nothing is decoded. Otherwise both values are decoded and compared;
    /// only INTEGER has a comparator.
    pub open spec fn compared(&self, other: &DataReference, same_page: bool) -> Result<
        Ordering,
        Error,
    > {
        if self.data_type() != other.data_type() {
            Err(Error::TypeMismatch)
        } else if same_page && self.cursor().position == other.cursor().position {
            Ok(Ordering::Equal)
        } else if self.data_type() == DataType::INTEGER {
            match self.int_field() {
                Err(e) => Err(e),
                Ok(a) => match other.int_field() {
                    Err(e) => Err(e),
                    Ok(b) => Ok(order_of(a, b)),
                },
            }
        } else {
            Err(Error::Unsupported)
        }
    }

    /// Create new data reference.
    pub fn new(page: Arc<MemoryPage>, pos: usize, data_type: DataType) -> (dref: Self)
        ensures
            dref.data_type() == data_type,
            dref.cursor() == (Cursor { page: page@, position: pos as nat }),
    {
        DataReference { data_type: data_type, page: page, pos: pos }
    }

    /// The page referred to.
    pub fn page(&self) -> (page: &Arc<MemoryPage>)
        ensures
            page@ == self.cursor().page,
    {
        &self.page
    }

    /// The offset in the page.
    pub fn pos(&self) -> (pos: usize)
        ensures
            pos == self.cursor().position,
    {
        self.pos
    }

    /// The type of the value referred to.
    #[verifier::when_used_as_spec(spec_data_type)]
    pub fn data_type(&self) -> (data_type: DataType)
        ensures
            data_type == self.spec_data_type(),
    {
        self.data_type
    }

    /// Deserializes value as an integer. A reference of another type is
    /// reported as `Error::TypeMismatch`.
    pub fn to_int(&self) -> (res: Result<i32, Error>)
        ensures
            res == self.int_field(),
    {
        if self.data_type != DataType::INTEGER {
            return Err(Error::TypeMismatch);
        }
        let mut rs = DeserializeStream::new(&self.page, self.pos);
        rs.read_int()
    }

    /// Compares with `other`, given whether the two references point into
    /// one and the same page.
    pub fn compare_located(&self, other: &DataReference, same_page: bool) -> (res: Result<
        Ordering,
        Error,
    >)
        ensures
            res == self.compared(other, same_page),
    {
        if self.data_type != other.data_type {
            Err(Error::TypeMismatch)
        } else if same_page && self.pos == other.pos {
            Ok(Ordering::Equal)
        } else {
            match self.data_type {
                DataType::INTEGER => {
                    let a = self.to_int()?;
                    let b = other.to_int()?;
                    if a < b {
                        Ok(Ordering::Less)
                    } else if a == b {
                        Ok(Ordering::Equal)
                    } else {
                        Ok(Ordering::Greater)
                    }
                },
                _ => Err(Error::Unsupported),
            }
        }
    }

    /// Compares with `other` by decoded value.
    ///
    /// Whether two handles share a page is a fact about the machine, not
    /// about the bytes, so the result is one of two: that of references
    /// not known to share a page, or, only where the pages hold the same
    /// bytes, that of references known to share one. For INTEGER
    /// references that decode the two agree.
    pub fn compare(&self, other: &DataReference) -> (res: Result<Ordering, Error>)
        ensures
            res == self.compared(other, false) || (res == self.compared(other, true)
                && self.cursor().page == other.cursor().page),
            self.int_field() is Ok && other.int_field() is Ok ==> res == Ok::<Ordering, Error>(
                order_of(self.int_field()->Ok_0, other.int_field()->Ok_0),
            ),
    {
        let same_page = same_allocation(&self.page, &other.page);
        self.compare_located(other, same_page)
    }
}

/// The order of INTEGER references is total and is that of the values:
/// two references whose values can be decoded compare as less, equal or
/// greater, exactly one of the three, according to the values; and with the
/// operands exchanged, less and greater change places. This holds whether
/// or not the references are known to share a page, as long as references
/// said to share one hold the same bytes.
pub proof fn lemma_integer_order_total(a: DataReference, b: DataReference, same_page: bool)
    requires
        a.int_field() is Ok,
        b.int_field() is Ok,
        same_page ==> a.cursor().page == b.cursor().page,
    ensures
        a.compared(&b, same_page) == Ok::<Ordering, Error>(
            order_of(a.int_field()->Ok_0, b.int_field()->Ok_0),
        ),
        a.compared(&b, same_page) == Ok::<Ordering, Error>(Ordering::Less) <==> a.int_field()->Ok_0
            < b.int_field()->Ok_0,
        a.compared(&b, same_page) == Ok::<Ordering, Error>(Ordering::Equal)
            <==> a.int_field()->Ok_0 == b.int_field()->Ok_0,
        a.compared(&b, same_page) == Ok::<Ordering, Error>(Ordering::Greater)
            <==> a.int_field()->Ok_0 > b.int_field()->Ok_0,
        a.compared(&b, same_page) == Ok::<Ordering, Error>(Ordering::Less) <==> b.compared(
            &a,
            same_page,
        ) == Ok::<Ordering, Error>(Ordering::Greater),
        a.compared(&b, same_page) == Ok::<Ordering, Error>(Ordering::Equal) <==> b.compared(
            &a,
            same_page,
        ) == Ok::<Ordering, Error>(Ordering::Equal),
{
}

/// References of one type to the same offset of the same page are equal,
/// whatever the type and whatever the page holds there: nothing is decoded,
/// so no comparator is needed. In particular a reference equals itself.
pub proof fn lemma_same_place_is_equal(a: DataReference, b: DataReference)
    requires
        a.data_type() == b.data_type(),
        a.cursor().position == b.cursor().position,
    ensures
        a.compared(&b, true) == Ok::<Ordering, Error>(Ordering::Equal),
        a.compared(&a, true) == Ok::<Ordering, Error>(Ordering::Equal),
{
}

} // verus!
