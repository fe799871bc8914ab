//! Listing the mods of a pack.
use vstd::prelude::*;

use crate::commands::is_direct;
use crate::lock::{LockedMod, LockedModView};
use crate::provider::Provider;
use crate::resolve::{contains_text, ROOT_REQUESTER};
use crate::side::{packwiz_side, Side};
use crate::text::utf8;

verus! {

/// One line of the list.
#[derive(Debug)]
pub struct ListRow {
    /// Declared by the manifest, as opposed to pulled in as a dependency.
    pub direct: bool,
    pub slug: String,
    pub version: String,
    pub side: &'static str,
    pub provider: Provider,
}

#[verifier::ext_equal]
pub struct ListRowView {
    pub direct: bool,
    pub slug: Seq<char>,
    pub version: Seq<char>,
    pub side: Seq<char>,
    pub provider: Provider,
}

impl DeepView for ListRow {
    type V = ListRowView;

    open spec fn deep_view(&self) -> ListRowView {
        ListRowView {
            direct: self.direct,
            slug: self.slug@,
            version: self.version@,
            side: self.side@,
            provider: self.provider,
        }
    }
}

pub open spec fn row_of(m: LockedModView) -> ListRowView {
    ListRowView {
        direct: is_direct(m),
        slug: m.slug,
        version: m.version,
        side: packwiz_side(m.side),
        provider: m.provider,
    }
}

/// The lines of the list, in the order of the lock.
pub fn rows(mods: &Vec<LockedMod>) -> (r: Vec<ListRow>)
    ensures
        r.deep_view() == mods.deep_view().map_values(|m: LockedModView| row_of(m)),
{
    let ghost all = mods.deep_view();
    let ghost wanted = all.map_values(|m: LockedModView| row_of(m));
    let mut out: Vec<ListRow> = Vec::new();
    let mut i: usize = 0;
    while i < mods.len()
        invariant
            all == mods.deep_view(),
            wanted == all.map_values(|m: LockedModView| row_of(m)),
            i <= mods@.len(),
            out.deep_view() == wanted.take(i as int),
        decreases mods.len() - i,
    {
        let m = &mods[i];
        assert(all[i as int] == m.deep_view());
        let ghost prior = out.deep_view();
        let row = ListRow {
            direct: contains_text(&m.requested_by, ROOT_REQUESTER),
            slug: m.slug.clone(),
            version: m.version.clone(),
            side: m.side.packwiz_token(),
            provider: m.provider,
        };
        let ghost added = row.deep_view();
        out.push(row);
        i = i + 1;
        assert(out.deep_view() =~= prior.push(added));
        assert(added == wanted[i - 1]);
        assert(out.deep_view() =~= wanted.take(i as int));
    }
    assert(wanted.take(i as int) =~= wanted);
    out
}

/// The width of the column of slugs: that of the longest, in bytes, and four at least.
pub open spec fn width_of(mods: Seq<LockedModView>) -> nat
    decreases mods.len(),
{
    if mods.len() == 0 {
        4
    } else {
        let head = width_of(mods.drop_last());
        if utf8(mods.last().slug).len() > head {
            utf8(mods.last().slug).len()
        } else {
            head
        }
    }
}

/// The width of the column of slugs.
pub fn name_width(mods: &Vec<LockedMod>) -> (r: usize)
    ensures
        r == width_of(mods.deep_view()),
{
    let ghost all = mods.deep_view();
    let mut width: usize = 4;
    let mut i: usize = 0;
    while i < mods.len()
        invariant
            all == mods.deep_view(),
            i <= mods@.len(),
            width == width_of(all.take(i as int)),
        decreases mods.len() - i,
    {
        proof {
            assert(all[i as int] == mods@[i as int].deep_view());
            assert(all.take(i + 1).drop_last() =~= all.take(i as int));
            assert(all.take(i + 1).last() == all[i as int]);
        }
        let bytes = mods[i].slug.as_str().as_bytes();
        if bytes.len() > width {
            width = bytes.len();
        }
        i = i + 1;
    }
    assert(all.take(i as int) =~= all);
    width
}

/// No slug is wider than its column.
pub proof fn column_fits_every_slug(mods: Seq<LockedModView>, i: int)
    requires
        0 <= i < mods.len(),
    ensures
        utf8(mods[i].slug).len() <= width_of(mods),
        4 <= width_of(mods),
    decreases mods.len(),
{
    if i < mods.len() - 1 {
        assert(mods.drop_last()[i] == mods[i]);
        column_fits_every_slug(mods.drop_last(), i);
    } else if mods.len() > 1 {
        column_fits_every_slug(mods.drop_last(), 0);
    }
}

/// A row shows its mod: the slug, the version, the provider, whether the manifest declares it, and the
/// side by its name, which is empty for neither.
pub proof fn a_row_shows_its_mod(m: LockedModView)
    ensures
        row_of(m).slug == m.slug && row_of(m).version == m.version && row_of(m).provider
            == m.provider,
        row_of(m).direct <==> m.requested_by.contains("manifest"@),
        m.side == Side::Client ==> row_of(m).side == "client"@,
        m.side == Side::Server ==> row_of(m).side == "server"@,
        m.side == Side::Both ==> row_of(m).side == "both"@,
        m.side == Side::Neither ==> row_of(m).side == ""@,
{
}

/// The column is no wider than it has to be.
pub proof fn the_column_is_as_wide_as_a_slug(mods: Seq<LockedModView>)
    ensures
        width_of(mods) == 4 || exists|i: int|
            0 <= i < mods.len() && width_of(mods) == utf8((#[trigger] mods[i]).slug).len(),
    decreases mods.len(),
{
    if mods.len() > 0 {
        let head = mods.drop_last();
        the_column_is_as_wide_as_a_slug(head);
        if width_of(mods) == width_of(head) {
            if width_of(head) != 4 {
                let i = choose|i: int|
                    0 <= i < head.len() && width_of(head) == utf8((#[trigger] head[i]).slug).len();
                assert(mods[i] == head[i]);
            }
        } else {
            assert(mods[mods.len() - 1] == mods.last());
        }
    }
}

} // verus!
