//! Page requests: which page of records to return, and how many a page holds.
use vstd::prelude::*;

use crate::data::ValidationError;
use crate::text::decimal;

verus! {

/// The fewest records a page may hold.
pub const MIN_PAGE_SIZE: u8 = 1;

/// The most records a page may hold.
pub const MAX_PAGE_SIZE: u8 = 20;

/// How many records a page holds when the request does not say.
pub const DEFAULT_PAGE_SIZE: u8 = 5;

/// How many records a page holds: from 1 to 20.
#[derive(Debug, Clone, Copy, PartialEq, Eq, PartialOrd, Ord, Hash)]
pub struct PageSize(u8);

impl PageSize {
    #[verifier::type_invariant]
    spec fn in_range(self) -> bool {
        MIN_PAGE_SIZE <= self.0 <= MAX_PAGE_SIZE
    }

    /// The number of records.
    pub closed spec fn value(self) -> u8 {
        self.0
    }

    /// A page size of `value` records; rejected outside 1 to 20.
    pub fn new(value: u64) -> (r: Result<PageSize, ValidationError>)
        ensures
            r is Ok <==> MIN_PAGE_SIZE <= value <= MAX_PAGE_SIZE,
            r matches Ok(s) ==> s.value() == value,
            r matches Err(e) ==> e == ValidationError::PageSizeOutOfRange,
    {
        if MIN_PAGE_SIZE as u64 <= value && value <= MAX_PAGE_SIZE as u64 {
            Ok(PageSize(value as u8))
        } else {
            Err(ValidationError::PageSizeOutOfRange)
        }
    }

    /// The number of records.
    pub fn get(&self) -> (r: u8)
        ensures
            r == self.value(),
            MIN_PAGE_SIZE <= r <= MAX_PAGE_SIZE,
    {
        proof {
            use_type_invariant(self);
        }
        self.0
    }

    /// The size followed by "item" or "items", as in `"5 items"`.
    pub fn to_string(&self) -> (r: String)
        ensures
            r@ == decimal(self.value() as nat) + (if self.value() == 1 {
                seq![' ', 'i', 't', 'e', 'm']
            } else {
                seq![' ', 'i', 't', 'e', 'm', 's']
            }),
    {
        let mut out = String::new();
        crate::text::push_decimal(&mut out, self.0 as u64);
        if self.0 == 1 {
            proof {
                reveal_strlit(" item");
            }
            out.append(" item");
        } else {
            proof {
                reveal_strlit(" items");
            }
            out.append(" items");
        }
        proof {
            assert(out@ =~= decimal(self.value() as nat) + (if self.value() == 1 {
                seq![' ', 'i', 't', 'e', 'm']
            } else {
                seq![' ', 'i', 't', 'e', 'm', 's']
            }));
        }
        out
    }
}

impl Default for PageSize {
    fn default() -> (r: PageSize)
        ensures
            r.value() == DEFAULT_PAGE_SIZE,
    {
        PageSize(DEFAULT_PAGE_SIZE)
    }
}

impl From<PageSize> for u8 {
    fn from(size: PageSize) -> (r: u8)
        ensures
            r == size.value(),
    {
        size.get()
    }
}

impl vstd::std_specs::convert::FromSpecImpl<PageSize> for u8 {
    open spec fn obeys_from_spec() -> bool {
        true
    }

    open spec fn from_spec(size: PageSize) -> u8 {
        size.value()
    }
}

/// Which page of records to return, numbered from 1, and its size.
#[derive(Debug, Clone, Copy, PartialEq, Eq)]
pub struct Pagination {
    page: u32,
    size: PageSize,
}

impl Pagination {
    #[verifier::type_invariant]
    spec fn page_from_one(self) -> bool {
        self.page >= 1
    }

    /// The page number.
    pub closed spec fn page_number(self) -> u32 {
        self.page
    }

    /// The number of records a page holds.
    pub closed spec fn page_size(self) -> u8 {
        self.size.value()
    }

    /// Checks raw query values: a missing page is page 1 and a missing size
    /// is 5; page 0, a page past `u32::MAX` and a size outside 1 to 20 are
    /// rejected, not clamped. The size is checked first.
    pub fn parse(page: Option<u64>, size: Option<u64>) -> (r: Result<Pagination, ValidationError>)
        ensures
            ({
                let p = if page is Some {
                    page->0
                } else {
                    1
                };
                let s = if size is Some {
                    size->0
                } else {
                    DEFAULT_PAGE_SIZE as u64
                };
                &&& r is Ok <==> (1 <= p <= u32::MAX && MIN_PAGE_SIZE <= s <= MAX_PAGE_SIZE)
                &&& r matches Ok(q) ==> q.page_number() == p && q.page_size() == s
                &&& r matches Err(e) ==> e == (if MIN_PAGE_SIZE <= s <= MAX_PAGE_SIZE {
                    ValidationError::PageOutOfRange
                } else {
                    ValidationError::PageSizeOutOfRange
                })
            }),
    {
        let s = match size {
            Some(v) => PageSize::new(v),
            None => Ok(PageSize::default()),
        };
        let s = match s {
            Ok(s) => s,
            Err(e) => return Err(e),
        };
        let p: u64 = match page {
            Some(v) => v,
            None => 1,
        };
        if p < 1 || p > u32::MAX as u64 {
            return Err(ValidationError::PageOutOfRange);
        }
        Ok(Pagination { page: p as u32, size: s })
    }

    /// The page number, from 1.
    pub fn page(&self) -> (r: u32)
        ensures
            r == self.page_number(),
            r >= 1,
    {
        proof {
            use_type_invariant(self);
        }
        self.page
    }

    /// The number of records a page holds.
    pub fn size(&self) -> (r: PageSize)
        ensures
            r.value() == self.page_size(),
    {
        self.size
    }
}

impl Default for Pagination {
    fn default() -> (r: Pagination)
        ensures
            r.page_number() == 1,
            r.page_size() == DEFAULT_PAGE_SIZE,
    {
        Pagination { page: 1, size: PageSize::default() }
    }
}

} // verus!
