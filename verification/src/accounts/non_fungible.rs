//! One NFT collection of an account: the image of each NFT as it loads, the NFT opened for
//! its details, and what those details show.
use vstd::prelude::*;

use vstd::utf8::{encode_utf8, is_char_boundary};

use crate::keyed::KeyedList;
use crate::model::{NfData, NonFungibleAsset, Nft, Resource, ResourceAddress};
use crate::ranks::{count_before, lemma_count_before_drop_last, lemma_count_before_grows};
use crate::text::{chars_of, push_char, texts_equal};

pub use super::fungible::Icon;

verus! {

/// The data field that holds the address of an NFT's image.
pub const IMAGE_URL_KEY: &'static str = "key_image_url";

/// The data field that holds an NFT's name.
pub const NAME_KEY: &'static str = "name";

/// The data field that holds an NFT's description.
pub const DESCRIPTION_KEY: &'static str = "description";

pub enum Message {
    ResourceIcon(Icon),
    ImageLoaded(String, Icon),
    FailedToGetImage(String),
    SelectNFT(String),
}

pub struct NonFungible {
    pub non_fungible_asset: NonFungibleAsset,
    /// By NFT id: the image as far as it is loaded, and where it is loaded from.
    pub nft_images: KeyedList<String, (Icon, String)>,
    /// The collection's own icon.
    pub image: Icon,
    pub selected_nft: Option<String>,
}

/// The value of the first data field with the given key.
pub open spec fn first_value(data: Seq<NfData>, key: Seq<char>) -> Option<Seq<char>>
    decreases data.len(),
{
    if data.len() == 0 {
        None
    } else if data[0].key@ == key {
        Some(data[0].value@)
    } else {
        first_value(data.drop_first(), key)
    }
}

/// An NFT's image as it starts: loading from the address its data gives, or absent.
pub open spec fn image_entry(nft: Nft) -> (Icon, Seq<char>) {
    match first_value(nft.nfdata@, IMAGE_URL_KEY@) {
        Some(url) => (Icon::Loading, url),
        None => (Icon::Absent, Seq::empty()),
    }
}

/// The images of a list of NFTs by id; of two NFTs with one id the later counts.
pub open spec fn image_table(nfts: Seq<Nft>) -> Map<Seq<char>, (Icon, Seq<char>)>
    decreases nfts.len(),
{
    if nfts.len() == 0 {
        Map::empty()
    } else {
        image_table(nfts.drop_last()).insert(nfts.last().id@, image_entry(nfts.last()))
    }
}

pub open spec fn images_view(m: Map<Seq<char>, (Icon, String)>) -> Map<Seq<char>, (Icon, Seq<char>)> {
    m.map_values(|p: (Icon, String)| (p.0, p.1@))
}

/// The images still to download, as id and address, in the order of the table.
pub open spec fn pending_downloads(entries: Seq<(String, (Icon, String))>) -> Seq<(Seq<char>, Seq<char>)>
    decreases entries.len(),
{
    if entries.len() == 0 {
        Seq::empty()
    } else {
        let rest = pending_downloads(entries.drop_last());
        if entries.last().1.0 is Loading {
            rest.push((entries.last().0@, entries.last().1.1@))
        } else {
            rest
        }
    }
}

pub open spec fn pairs_view(v: Seq<(String, String)>) -> Seq<(Seq<char>, Seq<char>)> {
    v.map_values(|p: (String, String)| (p.0@, p.1@))
}

/// The images after one of them changes; an unknown id changes nothing.
pub open spec fn image_set(
    before: Map<Seq<char>, (Icon, Seq<char>)>,
    id: Seq<char>,
    icon: Icon,
) -> Map<Seq<char>, (Icon, Seq<char>)> {
    if before.contains_key(id) {
        before.insert(id, (icon, before[id].1))
    } else {
        before
    }
}

/// The collection after a message: an image arrived or failed to, the collection's icon
/// arrived, or an NFT was opened.
pub open spec fn nft_updated(before: NonFungible, after: NonFungible, message: Message) -> bool {
    &&& after.non_fungible_asset == before.non_fungible_asset
    &&& match message {
        Message::FailedToGetImage(nfid) => {
            &&& images_view(after.nft_images@) == image_set(
                images_view(before.nft_images@),
                nfid@,
                Icon::Absent,
            )
            &&& after.image == before.image
            &&& after.selected_nft == before.selected_nft
        },
        Message::ImageLoaded(nfid, icon) => {
            &&& images_view(after.nft_images@) == image_set(
                images_view(before.nft_images@),
                nfid@,
                icon,
            )
            &&& after.image == before.image
            &&& after.selected_nft == before.selected_nft
        },
        Message::ResourceIcon(icon) => {
            &&& after.nft_images == before.nft_images
            &&& after.image == icon
            &&& after.selected_nft == before.selected_nft
        },
        Message::SelectNFT(nfid) => {
            &&& after.nft_images == before.nft_images
            &&& after.image == before.image
            &&& after.selected_nft == Some(nfid)
        },
    }
}

/// The value of the first data field with the given key.
pub fn find_value(data: &Vec<NfData>, key: &str) -> (r: Option<String>)
    ensures
        match first_value(data@, key@) {
            Some(v) => r matches Some(s) && s@ == v,
            None => r is None,
        },
{
    let n = data.len();
    let mut i: usize = 0;
    assert(data@.skip(0) =~= data@);
    while i < n
        invariant
            n == data@.len(),
            i <= n,
            first_value(data@, key@) == first_value(data@.skip(i as int), key@),
        decreases n - i,
    {
        if texts_equal(data[i].key.as_str(), key) {
            return Some(data[i].value.clone());
        }
        assert(data@.skip(i as int).drop_first() =~= data@.skip(i + 1));
        i += 1;
    }
    None
}

/// The value of the first data field with the given key, or the empty text: what the
/// details show as an NFT's name and description.
pub fn field_value(data: &Vec<NfData>, key: &str) -> (r: String)
    ensures
        r@ == match first_value(data@, key@) {
            Some(v) => v,
            None => Seq::empty(),
        },
{
    match find_value(data, key) {
        Some(v) => v,
        None => String::new(),
    }
}

/// Where an image is loaded from, with the icon it starts as.
fn image_of(nft: &Nft) -> (r: (Icon, String))
    ensures
        (r.0, r.1@) == image_entry(*nft),
{
    match find_value(&nft.nfdata, IMAGE_URL_KEY) {
        Some(url) => (Icon::Loading, url),
        None => (Icon::Absent, String::new()),
    }
}

impl NonFungible {
    /// Opens a collection: every NFT whose data gives an image address starts loading, the
    /// others have none, and the collection's icon is loading. Gives back the images to
    /// download, as NFT id and address.
    pub fn new(non_fungible: NonFungibleAsset) -> (r: (Self, Vec<(String, String)>))
        ensures
            r.0.non_fungible_asset == non_fungible,
            images_view(r.0.nft_images@) == image_table(non_fungible.nfids@),
            r.0.image is Loading,
            r.0.selected_nft is None,
            pairs_view(r.1@) == pending_downloads(r.0.nft_images.entries()),
    {
        let mut images: KeyedList<String, (Icon, String)> = KeyedList::new();
        let n = non_fungible.nfids.len();
        let mut i: usize = 0;
        while i < n
            invariant
                n == non_fungible.nfids@.len(),
                i <= n,
                images_view(images@) == image_table(non_fungible.nfids@.take(i as int)),
            decreases n - i,
        {
            let nft = &non_fungible.nfids[i];
            let entry = image_of(nft);
            let ghost before = images@;
            let ghost e = (entry.0, entry.1@);
            images.insert(nft.id.clone(), entry);
            proof {
                assert(non_fungible.nfids@.take(i + 1).drop_last() =~= non_fungible.nfids@.take(
                    i as int,
                ));
                assert(images_view(images@) =~= images_view(before).insert(nft.id@, e));
            }
            i += 1;
        }
        assert(non_fungible.nfids@.take(n as int) =~= non_fungible.nfids@);
        let mut downloads: Vec<(String, String)> = Vec::new();
        let m = images.len();
        let mut j: usize = 0;
        while j < m
            invariant
                m == images.entries().len(),
                j <= m,
                pairs_view(downloads@) == pending_downloads(images.entries().take(j as int)),
            decreases m - j,
        {
            let (id, entry) = images.entry_at(j);
            proof {
                assert(images.entries().take(j + 1).drop_last() =~= images.entries().take(
                    j as int,
                ));
            }
            match &entry.0 {
                Icon::Loading => {
                    downloads.push((id.clone(), entry.1.clone()));
                    assert(pairs_view(downloads@) =~= pairs_view(downloads@.drop_last()).push(
                        (id@, entry.1@),
                    ));
                },
                _ => {},
            }
            j += 1;
        }
        assert(images.entries().take(m as int) =~= images.entries());
        (
            NonFungible {
                non_fungible_asset: non_fungible,
                nft_images: images,
                image: Icon::Loading,
                selected_nft: None,
            },
            downloads,
        )
    }

    /// Sets the icon of one NFT, keeping where it is loaded from.
    fn set_nft_icon(&mut self, nfid: &String, icon: Icon)
        ensures
            final(self).non_fungible_asset == old(self).non_fungible_asset,
            final(self).image == old(self).image,
            final(self).selected_nft == old(self).selected_nft,
            images_view(final(self).nft_images@) == image_set(
                images_view(old(self).nft_images@),
                nfid@,
                icon,
            ),
    {
        match self.nft_images.index_of(nfid) {
            Some(i) => {
                let url = self.nft_images.entry_at(i).1.1.clone();
                let ghost before = self.nft_images@;
                let ghost u = url@;
                self.nft_images.set_value_at(i, (icon, url));
                assert(images_view(self.nft_images@) =~= images_view(before).insert(
                    nfid@,
                    (icon, u),
                ));
            },
            None => {},
        }
    }

    /// An image arrived or failed to, the collection's icon arrived, or an NFT was opened.
    pub fn update(&mut self, message: Message)
        ensures
            nft_updated(*old(self), *final(self), message),
    {
        match message {
            Message::FailedToGetImage(nfid) => {
                self.set_nft_icon(&nfid, Icon::Absent);
            },
            Message::ImageLoaded(nfid, icon) => {
                self.set_nft_icon(&nfid, icon);
            },
            Message::ResourceIcon(icon) => {
                self.image = icon;
            },
            Message::SelectNFT(nfid) => {
                self.selected_nft = Some(nfid);
            },
        }
    }
}

/// The characters trimmed off both ends of an NFT id before it is shown.
pub open spec fn id_bracket(c: char) -> bool {
    c == '{' || c == '}' || c == '<' || c == '>'
}

pub open spec fn trim_start(s: Seq<char>) -> Seq<char>
    decreases s.len(),
{
    if s.len() > 0 && id_bracket(s[0]) {
        trim_start(s.drop_first())
    } else {
        s
    }
}

pub open spec fn trim_end(s: Seq<char>) -> Seq<char>
    decreases s.len(),
{
    if s.len() > 0 && id_bracket(s.last()) {
        trim_end(s.drop_last())
    } else {
        s
    }
}

/// An NFT id without the brackets around it, as `str::trim_matches` leaves it.
pub open spec fn trim_id(s: Seq<char>) -> Seq<char> {
    trim_end(trim_start(s))
}

/// The least length in bytes of an id that is shown shortened.
pub const SHORTEN_FROM: usize = 22;

/// How an NFT id is shown: whole, or as its first 8 bytes and last 5 bytes around an
/// ellipsis.
pub enum NftIdLabel {
    Whole(String),
    Shortened { head: String, tail: String },
}

/// An id cut where the shortened form cuts it lies on character boundaries.
pub open spec fn id_cuttable(id: Seq<char>) -> bool {
    let b = encode_utf8(trim_id(id));
    b.len() >= SHORTEN_FROM ==> is_char_boundary(b, 8) && is_char_boundary(b, b.len() - 5)
}

/// The label of an id: brackets trimmed; an id of 22 bytes or more shows its first 8 and last
/// 5 bytes.
pub open spec fn id_label_is(id: Seq<char>, label: NftIdLabel) -> bool {
    let t = trim_id(id);
    let b = encode_utf8(t);
    if b.len() < SHORTEN_FROM {
        label matches NftIdLabel::Whole(w) && w@ == t
    } else {
        &&& label matches NftIdLabel::Shortened { head, tail }
        &&& encode_utf8(head@) == b.subrange(0, 8)
        &&& encode_utf8(tail@) == b.subrange(b.len() - 5, b.len() as int)
    }
}

/// The id without its brackets.
pub fn trimmed_id(id: &str) -> (r: String)
    ensures
        r@ == trim_id(id@),
{
    let cs = chars_of(id);
    let n = cs.len();
    let mut a: usize = 0;
    assert(id@.skip(0) =~= id@);
    while a < n && (cs[a] == '{' || cs[a] == '}' || cs[a] == '<' || cs[a] == '>')
        invariant
            n == cs@.len(),
            cs@ == id@,
            a <= n,
            trim_start(id@) == trim_start(id@.skip(a as int)),
        decreases n - a,
    {
        assert(id@.skip(a as int).drop_first() =~= id@.skip(a + 1));
        a += 1;
    }
    assert(trim_start(id@) == id@.skip(a as int)) by {
        if a == n {
            assert(id@.skip(a as int).len() == 0);
        }
    }
    let mut j: usize = n;
    assert(id@.subrange(a as int, n as int) =~= id@.skip(a as int));
    while j > a && (cs[j - 1] == '{' || cs[j - 1] == '}' || cs[j - 1] == '<' || cs[j - 1] == '>')
        invariant
            n == cs@.len(),
            cs@ == id@,
            a <= j <= n,
            trim_id(id@) == trim_end(id@.subrange(a as int, j as int)),
        decreases j - a,
    {
        assert(id@.subrange(a as int, j as int).drop_last() =~= id@.subrange(a as int, j - 1));
        j -= 1;
    }
    let mut r = String::new();
    let mut k: usize = a;
    while k < j
        invariant
            n == cs@.len(),
            cs@ == id@,
            a <= k <= j <= n,
            r@ == id@.subrange(a as int, k as int),
        decreases j - k,
    {
        push_char(&mut r, cs[k]);
        assert(r@ =~= id@.subrange(a as int, k + 1));
        k += 1;
    }
    r
}

/// How the details and the NFT cards show an id.
pub fn nft_id_label(id: &str) -> (r: NftIdLabel)
    requires
        id_cuttable(id@),
    ensures
        id_label_is(id@, r),
{
    let t = trimmed_id(id);
    let ts = t.as_str();
    let n = ts.as_bytes().len();
    if n < SHORTEN_FROM {
        NftIdLabel::Whole(t)
    } else {
        let (h, _) = ts.split_at(8);
        let (_, tl) = ts.split_at(n - 5);
        NftIdLabel::Shortened { head: h.to_owned(), tail: tl.to_owned() }
    }
}

/// Whether a data field is one that the details show apart: name, description or image.
pub open spec fn shown_apart(key: Seq<char>) -> bool {
    key == NAME_KEY@ || key == DESCRIPTION_KEY@ || key == IMAGE_URL_KEY@
}

/// The data fields that the details list as metadata, in order.
pub open spec fn metadata_fields(data: Seq<NfData>) -> Seq<NfData>
    decreases data.len(),
{
    if data.len() == 0 {
        Seq::empty()
    } else if shown_apart(data.last().key@) {
        metadata_fields(data.drop_last())
    } else {
        metadata_fields(data.drop_last()).push(data.last())
    }
}

/// The metadata of an NFT: its data fields but name, description and image address.
pub fn nft_metadata(nft: &Nft) -> (r: Vec<NfData>)
    ensures
        r@ == metadata_fields(nft.nfdata@),
{
    let n = nft.nfdata.len();
    let mut r: Vec<NfData> = Vec::new();
    let mut i: usize = 0;
    while i < n
        invariant
            n == nft.nfdata@.len(),
            i <= n,
            r@ == metadata_fields(nft.nfdata@.take(i as int)),
        decreases n - i,
    {
        let d = &nft.nfdata[i];
        proof {
            assert(nft.nfdata@.take(i + 1).drop_last() =~= nft.nfdata@.take(i as int));
        }
        let k = d.key.as_str();
        if !(texts_equal(k, NAME_KEY) || texts_equal(k, DESCRIPTION_KEY) || texts_equal(
            k,
            IMAGE_URL_KEY,
        )) {
            r.push(d.clone());
        }
        i += 1;
    }
    assert(nft.nfdata@.take(n as int) =~= nft.nfdata@);
    r
}

/// Where the NFT with the given id stands in the collection: the first with that id.
pub fn find_nft(asset: &NonFungibleAsset, id: &str) -> (r: Option<usize>)
    ensures
        match r {
            Some(j) => j < asset.nfids@.len() && asset.nfids@[j as int].id@ == id@ && forall|
                k: int,
            | 0 <= k < j ==> (#[trigger] asset.nfids@[k]).id@ != id@,
            None => forall|k: int|
                0 <= k < asset.nfids@.len() ==> (#[trigger] asset.nfids@[k]).id@ != id@,
        },
{
    let n = asset.nfids.len();
    let mut i: usize = 0;
    while i < n
        invariant
            n == asset.nfids@.len(),
            i <= n,
            forall|k: int| 0 <= k < i ==> (#[trigger] asset.nfids@[k]).id@ != id@,
        decreases n - i,
    {
        if texts_equal(asset.nfids[i].id.as_str(), id) {
            return Some(i);
        }
        i += 1;
    }
    None
}

/// Shown for a collection whose resource is not known.
pub const NO_NAME: &'static str = "NoName";

pub const NO_DESCRIPTION: &'static str = "No description";

pub const UNKNOWN_SUPPLY: &'static str = "Unknown";

/// The texts that head a collection: from its resource where the wallet knows it, fallbacks
/// where not, and how many NFTs the account holds.
pub struct CollectionLabels {
    pub name: String,
    pub symbol: String,
    pub description: String,
    pub current_supply: String,
    pub nft_count: usize,
}

impl NonFungible {
    /// The head of the collection's page.
    pub fn labels(&self, resources: &KeyedList<ResourceAddress, Resource>) -> (r: CollectionLabels)
        ensures
            r.nft_count == self.non_fungible_asset.nfids@.len(),
            match resources@.get(self.non_fungible_asset.resource_address@) {
                Some(res) => {
                    &&& r.name@ == res.name@
                    &&& r.symbol@ == res.symbol@
                    &&& r.description@ == res.description@
                    &&& r.current_supply@ == res.current_supply@
                },
                None => {
                    &&& r.name@ == NO_NAME@
                    &&& r.symbol@ == Seq::<char>::empty()
                    &&& r.description@ == NO_DESCRIPTION@
                    &&& r.current_supply@ == UNKNOWN_SUPPLY@
                },
            },
    {
        let nft_count = self.non_fungible_asset.nfids.len();
        match resources.get(&self.non_fungible_asset.resource_address) {
            Some(res) => CollectionLabels {
                name: res.name.clone(),
                symbol: res.symbol.clone(),
                description: res.description.clone(),
                current_supply: res.current_supply.clone(),
                nft_count,
            },
            None => CollectionLabels {
                name: String::from_str(NO_NAME),
                symbol: String::new(),
                description: String::from_str(NO_DESCRIPTION),
                current_supply: String::from_str(UNKNOWN_SUPPLY),
                nft_count,
            },
        }
    }
}

/// Whether a data field is listed among the metadata.
pub open spec fn listed_field() -> spec_fn(NfData) -> bool {
    |d: NfData| !shown_apart(d.key@)
}

/// The metadata lists exactly the data fields other than name, description and image
/// address, in their order (the `r`-th such field is the `r`-th listed).
pub proof fn law_metadata_lists_other_fields(data: Seq<NfData>)
    ensures
        metadata_fields(data).len() == count_before(data, listed_field(), data.len() as int),
        forall|j: int|
            0 <= j < data.len() && !shown_apart((#[trigger] data[j]).key@) ==> metadata_fields(
                data,
            )[count_before(data, listed_field(), j) as int] == data[j],
    decreases data.len(),
{
    if data.len() > 0 {
        let p = listed_field();
        let n = data.len() - 1;
        let dl = data.drop_last();
        law_metadata_lists_other_fields(dl);
        lemma_count_before_drop_last(data, p);
        assert(data.last() == data[n]);
        assert(count_before(data, p, data.len() as int) == count_before(data, p, n) + if p(data[n]) {
            1nat
        } else {
            0nat
        });
        assert forall|j: int| 0 <= j < data.len() && !shown_apart((#[trigger] data[j]).key@) implies metadata_fields(
            data,
        )[count_before(data, p, j) as int] == data[j] by {
            assert(p(data[j]));
            if j < n {
                assert(dl[j] == data[j]);
                assert(count_before(dl, p, j) == count_before(data, p, j));
                lemma_count_before_grows(data, p, j, n);
            }
        }
    }
}

/// Whether an image is still to be downloaded.
pub open spec fn still_loading() -> spec_fn((String, (Icon, String))) -> bool {
    |e: (String, (Icon, String))| e.1.0 is Loading
}

/// The downloads still to make are exactly the images that are loading, in the order of the
/// table (the `r`-th loading image is the `r`-th download), each as its id and address.
pub proof fn law_every_loading_image_is_downloaded(entries: Seq<(String, (Icon, String))>)
    ensures
        pending_downloads(entries).len() == count_before(entries, still_loading(), entries.len() as int),
        forall|j: int|
            0 <= j < entries.len() && (#[trigger] entries[j]).1.0 is Loading ==> pending_downloads(
                entries,
            )[count_before(entries, still_loading(), j) as int] == (entries[j].0@, entries[j].1.1@),
    decreases entries.len(),
{
    if entries.len() > 0 {
        let p = still_loading();
        let n = entries.len() - 1;
        let dl = entries.drop_last();
        law_every_loading_image_is_downloaded(dl);
        lemma_count_before_drop_last(entries, p);
        assert(entries.last() == entries[n]);
        assert(count_before(entries, p, entries.len() as int) == count_before(entries, p, n) + if p(
            entries[n],
        ) {
            1nat
        } else {
            0nat
        });
        assert forall|j: int| 0 <= j < entries.len() && (#[trigger] entries[j]).1.0 is Loading implies pending_downloads(
            entries,
        )[count_before(entries, p, j) as int] == (entries[j].0@, entries[j].1.1@) by {
            assert(p(entries[j]));
            if j < n {
                assert(dl[j] == entries[j]);
                assert(count_before(dl, p, j) == count_before(entries, p, j));
                lemma_count_before_grows(entries, p, j, n);
            }
        }
    }
}

/// The value of a data field is that of the first field with the key, and there is none
/// exactly when no field has the key.
pub proof fn law_first_field_with_key_counts(data: Seq<NfData>, key: Seq<char>)
    ensures
        first_value(data, key) is None <==> forall|i: int| 0 <= i < data.len() ==> (#[trigger] data[i]).key@ != key,
        first_value(data, key) is Some ==> exists|i: int|
            0 <= i < data.len() && (#[trigger] data[i]).key@ == key && first_value(data, key)
                == Some(data[i].value@) && forall|j: int| 0 <= j < i ==> (#[trigger] data[j]).key@ != key,
    decreases data.len(),
{
    if data.len() > 0 {
        let rest = data.drop_first();
        law_first_field_with_key_counts(rest, key);
        assert forall|i: int| 0 <= i < rest.len() implies rest[i] == data[i + 1] by {}
        if data[0].key@ == key {
            assert(data[0].key@ == key && first_value(data, key) == Some(data[0].value@));
        } else if first_value(rest, key) is Some {
            let i = choose|i: int|
                0 <= i < rest.len() && (#[trigger] rest[i]).key@ == key && first_value(rest, key)
                    == Some(rest[i].value@) && forall|j: int| 0 <= j < i ==> (#[trigger] rest[j]).key@ != key;
            assert(data[i + 1] == rest[i]);
            assert forall|j: int| 0 <= j < i + 1 implies (#[trigger] data[j]).key@ != key by {
                if j > 0 {
                    assert(rest[j - 1] == data[j]);
                }
            }
        } else {
            assert forall|i: int| 0 <= i < data.len() implies (#[trigger] data[i]).key@ != key by {
                if i > 0 {
                    assert(rest[i - 1] == data[i]);
                }
            }
        }
    }
}

/// Whether a later NFT of the list has the same id.
pub open spec fn id_repeated_later(nfts: Seq<Nft>, i: int) -> bool {
    exists|j: int| i < j < nfts.len() && (#[trigger] nfts[j]).id@ == nfts[i].id@
}

/// The image table has an entry for every NFT id of the list and no other; the entry of an id
/// is the image of the last NFT with that id.
pub proof fn law_image_table_covers_every_nft(nfts: Seq<Nft>)
    ensures
        forall|k: Seq<char>|
            #[trigger] image_table(nfts).contains_key(k) <==> exists|i: int|
                0 <= i < nfts.len() && (#[trigger] nfts[i]).id@ == k,
        forall|i: int|
            0 <= i < nfts.len() && !id_repeated_later(nfts, i) ==> image_table(nfts)[(
            #[trigger] nfts[i]).id@] == image_entry(nfts[i]),
    decreases nfts.len(),
{
    if nfts.len() > 0 {
        let n = nfts.len() - 1;
        let dl = nfts.drop_last();
        law_image_table_covers_every_nft(dl);
        assert(nfts.last() == nfts[n]);
        assert forall|k: Seq<char>|
            #[trigger] image_table(nfts).contains_key(k) <==> exists|i: int|
                0 <= i < nfts.len() && (#[trigger] nfts[i]).id@ == k by {
            if image_table(dl).contains_key(k) {
                let i = choose|i: int| 0 <= i < dl.len() && (#[trigger] dl[i]).id@ == k;
                assert(nfts[i] == dl[i]);
            }
            if exists|i: int| 0 <= i < nfts.len() && (#[trigger] nfts[i]).id@ == k {
                let i = choose|i: int| 0 <= i < nfts.len() && (#[trigger] nfts[i]).id@ == k;
                if i < n {
                    assert(dl[i] == nfts[i]);
                }
            }
        }
        assert forall|i: int| 0 <= i < nfts.len() && !id_repeated_later(nfts, i) implies image_table(nfts)[(
        #[trigger] nfts[i]).id@] == image_entry(nfts[i]) by {
            if i < n {
                assert(dl[i] == nfts[i]);
                assert(nfts[n].id@ != nfts[i].id@);
                assert(!id_repeated_later(dl, i)) by {
                    if id_repeated_later(dl, i) {
                        let j = choose|j: int| i < j < dl.len() && (#[trigger] dl[j]).id@ == dl[i].id@;
                        assert(dl[j] == nfts[j]);
                    }
                }
            }
        }
    }
}

/// Trimming an id removes the brackets from both of its ends and nothing else: what is left
/// stands in the id as it was, neither end of it is a bracket, and everything cut off is.
pub proof fn law_trimmed_id_is_the_inner_part(s: Seq<char>)
    ensures
        exists|a: int, b: int|
            0 <= a <= b <= s.len() && trim_id(s) == s.subrange(a, b) && (forall|i: int|
                0 <= i < a ==> id_bracket(#[trigger] s[i])) && (forall|i: int|
                b <= i < s.len() ==> id_bracket(#[trigger] s[i])),
        trim_id(s).len() > 0 ==> !id_bracket(trim_id(s)[0]) && !id_bracket(trim_id(s).last()),
{
    lemma_trim_start_cuts(s);
    let a = s.len() - trim_start(s).len();
    let t = trim_start(s);
    lemma_trim_end_cuts(t);
    let b = a + trim_end(t).len();
    assert(trim_id(s) =~= s.subrange(a, b));
    assert forall|i: int| b <= i < s.len() implies id_bracket(#[trigger] s[i]) by {
        assert(s[i] == t[i - a]);
    }
    if trim_id(s).len() > 0 {
        assert(trim_id(s)[0] == t[0]);
    }
}

/// Trimming the start cuts a run of brackets off the front and stops at a character that is
/// none.
pub proof fn lemma_trim_start_cuts(s: Seq<char>)
    ensures
        trim_start(s).len() <= s.len(),
        trim_start(s) == s.subrange(s.len() - trim_start(s).len(), s.len() as int),
        forall|i: int| 0 <= i < s.len() - trim_start(s).len() ==> id_bracket(#[trigger] s[i]),
        trim_start(s).len() > 0 ==> !id_bracket(trim_start(s)[0]),
    decreases s.len(),
{
    if s.len() > 0 && id_bracket(s[0]) {
        let r = s.drop_first();
        lemma_trim_start_cuts(r);
        assert(trim_start(s) == trim_start(r));
        assert(r.subrange(r.len() - trim_start(r).len(), r.len() as int) =~= s.subrange(
            s.len() - trim_start(s).len(),
            s.len() as int,
        ));
        assert forall|i: int| 0 <= i < s.len() - trim_start(s).len() implies id_bracket(#[trigger] s[i]) by {
            if i > 0 {
                assert(r[i - 1] == s[i]);
            }
        }
    } else {
        assert(s.subrange(0, s.len() as int) =~= s);
    }
}

/// Trimming the end cuts a run of brackets off the back and stops at a character that is
/// none.
pub proof fn lemma_trim_end_cuts(s: Seq<char>)
    ensures
        trim_end(s).len() <= s.len(),
        trim_end(s) == s.subrange(0, trim_end(s).len() as int),
        forall|i: int| trim_end(s).len() <= i < s.len() ==> id_bracket(#[trigger] s[i]),
        trim_end(s).len() > 0 ==> !id_bracket(trim_end(s).last()),
    decreases s.len(),
{
    if s.len() > 0 && id_bracket(s.last()) {
        let r = s.drop_last();
        lemma_trim_end_cuts(r);
        assert(trim_end(s) == trim_end(r));
        assert(r.subrange(0, trim_end(r).len() as int) =~= s.subrange(0, trim_end(s).len() as int));
        assert forall|i: int| trim_end(s).len() <= i < s.len() implies id_bracket(#[trigger] s[i]) by {
            if i < r.len() {
                assert(r[i] == s[i]);
            }
        }
    } else {
        assert(s.subrange(0, s.len() as int) =~= s);
    }
}

} // verus!
