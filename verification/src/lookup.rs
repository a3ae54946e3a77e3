use vstd::prelude::*;
use crate::path::FsPath;

verus! {

/// The outcome of a successful resolution: the page file to show and, when a
/// user patch applies, the patch file to append.
///
/// The value owns its paths and stays usable after the cache handle is gone.
#[derive(Debug)]
pub struct PageLookupResult {
    pub page_path: FsPath,
    pub patch_path: Option<FsPath>,
}

/// The bytes a fully drained reader over a lookup result yields: the page
/// contents, then — only when a patch is present — one newline separator
/// followed by the patch contents.
pub open spec fn spec_reader_output(page: Seq<u8>, patch: Option<Seq<u8>>) -> Seq<u8> {
    match patch {
        Option::None => page,
        Option::Some(p) => page + seq![10u8] + p,
    }
}

/// The view of an optional byte buffer.
pub open spec fn opt_bytes_view(patch: &Option<Vec<u8>>) -> Option<Seq<u8>> {
    match patch {
        Option::None => Option::None,
        Option::Some(p) => Option::Some(p@),
    }
}

impl PageLookupResult {
    /// A result for `page_path` with no patch.
    pub fn with_page(page_path: FsPath) -> (r: Self)
        ensures
            r.page_path == page_path,
            r.patch_path is None,
    {
        Self { page_path, patch_path: Option::None }
    }

    /// The same result with the patch path replaced by `patch_path`.
    pub fn with_optional_patch(self, patch_path: Option<FsPath>) -> (r: Self)
        ensures
            r.page_path == self.page_path,
            r.patch_path == patch_path,
    {
        Self { page_path: self.page_path, patch_path }
    }

    /// The full byte stream this result presents, computed from the contents
    /// of the page file and, when one is configured, the patch file.
    ///
    /// The application's reader produces the same bytes lazily from the open
    /// files; this function fixes what that stream must contain.
    pub fn reader_output(&self, page: &Vec<u8>, patch: &Option<Vec<u8>>) -> (r: Vec<u8>)
        requires
            patch.is_some() <==> self.patch_path.is_some(),
        ensures
            r@ == spec_reader_output(page@, opt_bytes_view(patch)),
    {
        let mut out: Vec<u8> = Vec::new();
        let mut i: usize = 0;
        while i < page.len()
            invariant
                i <= page@.len(),
                out@ =~= page@.take(i as int),
            decreases page@.len() - i,
        {
            out.push(page[i]);
            proof {
                assert(out@ =~= page@.take(i + 1 as int));
            }
            i = i + 1;
        }
        proof {
            assert(page@.take(page@.len() as int) =~= page@);
        }
        match patch {
            Option::None => out,
            Option::Some(p) => {
                out.push(10u8);
                let mut j: usize = 0;
                while j < p.len()
                    invariant
                        j <= p@.len(),
                        out@ =~= page@ + seq![10u8] + p@.take(j as int),
                    decreases p@.len() - j,
                {
                    out.push(p[j]);
                    proof {
                        assert(out@ =~= page@ + seq![10u8] + p@.take(j + 1 as int));
                    }
                    j = j + 1;
                }
                proof {
                    assert(p@.take(p@.len() as int) =~= p@);
                    assert(out@ =~= page@ + seq![10u8] + p@);
                }
                out
            },
        }
    }
}

} // verus!
