//! Which of a release's files is downloaded, and how it is compressed.
use crate::github_util::{Asset, Release};
use crate::text;
use vstd::prelude::*;
use vstd::string::*;

verus! {

broadcast use vstd::string::group_string_axioms;

/// How an archive is compressed.
#[derive(Clone, Copy, Debug, PartialEq, Eq, Structural)]
pub enum CompressionType {
    Gzip,
    Xz,
    Unknown,
}

/// What is downloaded for a release.
#[derive(Debug)]
pub struct DownloadPlan {
    pub url: String,
    pub compression_type: CompressionType,
}

/// Does the file's content type or its name say that it is an archive of a supported
/// kind?
pub open spec fn is_supported(asset: Asset) -> bool {
    let name = text::ascii_lowercase(asset.name@);
    ||| asset.content_type@ == "application/gzip"@
    ||| asset.content_type@ == "application/x-xz"@
    ||| text::ends_in(name, ".tar.gz"@)
    ||| text::ends_in(name, ".tar.xz"@)
}

/// How the file is compressed: its name decides, and its content type where the name
/// says nothing.
pub open spec fn compression_of(asset: Asset) -> CompressionType {
    let name = text::ascii_lowercase(asset.name@);
    if text::ends_in(name, ".tar.gz"@) {
        CompressionType::Gzip
    } else if text::ends_in(name, ".tar.xz"@) {
        CompressionType::Xz
    } else if asset.content_type@ == "application/gzip"@ {
        CompressionType::Gzip
    } else if asset.content_type@ == "application/x-xz"@ {
        CompressionType::Xz
    } else {
        CompressionType::Unknown
    }
}

/// Does a lower-case file name name a processor that a Steam Deck does not have?
pub open spec fn names_foreign_processor(name: Seq<char>) -> bool {
    ||| text::occurs_in(name, "aarch64"@)
    ||| text::occurs_in(name, "arm64"@)
    ||| text::occurs_in(name, "armv7"@)
    ||| text::occurs_in(name, "armhf"@)
    ||| text::occurs_in(name, "riscv64"@)
    ||| text::occurs_in(name, "ppc64"@)
    ||| text::occurs_in(name, "s390x"@)
    ||| text::occurs_in(name, "loong64"@)
}

/// Is the file built for a processor that a Steam Deck has?
pub open spec fn is_for_steam_deck(asset: Asset) -> bool {
    !names_foreign_processor(text::ascii_lowercase(asset.name@))
}

/// Can the file be installed?
pub open spec fn is_installable(asset: Asset) -> bool {
    is_supported(asset) && is_for_steam_deck(asset)
}

/// Where the first file stands that can be installed.
pub open spec fn first_installable(assets: Seq<Asset>) -> Option<int>
    decreases assets.len(),
{
    if assets.len() == 0 {
        None
    } else {
        match first_installable(assets.drop_last()) {
            Some(i) => Some(i),
            None => if is_installable(assets.last()) {
                Some(assets.len() - 1)
            } else {
                None
            },
        }
    }
}

/// What is downloaded out of some files: the first that can be installed.
pub open spec fn download_of(assets: Seq<Asset>) -> Option<DownloadPlan> {
    match first_installable(assets) {
        Some(i) => Some(
            DownloadPlan {
                url: assets[i].browser_download_url,
                compression_type: compression_of(assets[i]),
            },
        ),
        None => None,
    }
}

/// What is downloaded for a release: the first of its files that can be installed.
pub open spec fn planned_download(release: Release) -> Option<DownloadPlan> {
    download_of(release.assets@)
}

/// The name of the file that an archive is downloaded to.
pub open spec fn archive_name(compression_type: CompressionType) -> Seq<char> {
    match compression_type {
        CompressionType::Gzip => "download.tar.gz"@,
        CompressionType::Xz => "download.tar.xz"@,
        CompressionType::Unknown => "download.tar"@,
    }
}

/// Are the two texts the same?
fn same_text(a: &String, b: &str) -> (r: bool)
    ensures
        r == (a@ == b@),
{
    *a == b.to_string()
}

/// The name of the file that an archive is downloaded to.
pub fn download_archive_name(compression_type: &CompressionType) -> (r: &'static str)
    ensures
        r@ == archive_name(*compression_type),
{
    match compression_type {
        CompressionType::Gzip => "download.tar.gz",
        CompressionType::Xz => "download.tar.xz",
        CompressionType::Unknown => "download.tar",
    }
}

/// Is the file an archive of a supported kind?
fn is_supported_archive(asset: &Asset) -> (r: bool)
    ensures
        r == is_supported(*asset),
{
    let name = text::lowercase_characters(asset.name.as_str());
    same_text(&asset.content_type, "application/gzip") || same_text(
        &asset.content_type,
        "application/x-xz",
    ) || text::has_suffix(&name, ".tar.gz") || text::has_suffix(&name, ".tar.xz")
}

/// How the file is compressed.
fn asset_compression(asset: &Asset) -> (r: CompressionType)
    ensures
        r == compression_of(*asset),
{
    let name = text::lowercase_characters(asset.name.as_str());
    if text::has_suffix(&name, ".tar.gz") {
        CompressionType::Gzip
    } else if text::has_suffix(&name, ".tar.xz") {
        CompressionType::Xz
    } else if same_text(&asset.content_type, "application/gzip") {
        CompressionType::Gzip
    } else if same_text(&asset.content_type, "application/x-xz") {
        CompressionType::Xz
    } else {
        CompressionType::Unknown
    }
}

/// Is the file built for a processor that a Steam Deck has?
pub fn is_steam_deck_archive(asset: &Asset) -> (r: bool)
    ensures
        r == is_for_steam_deck(*asset),
{
    let name = text::lowercase_characters(asset.name.as_str());
    !(text::has_text(&name, "aarch64") || text::has_text(&name, "arm64") || text::has_text(
        &name,
        "armv7",
    ) || text::has_text(&name, "armhf") || text::has_text(&name, "riscv64") || text::has_text(
        &name,
        "ppc64",
    ) || text::has_text(&name, "s390x") || text::has_text(&name, "loong64"))
}

/// What is downloaded for a release: the first of its files that is an archive of a
/// supported kind and built for a processor that a Steam Deck has.
pub fn look_for_compressed_archive(release: &Release) -> (r: Option<DownloadPlan>)
    ensures
        r == planned_download(*release),
{
    let ghost assets = release.assets@;
    let mut i: usize = 0;
    assert(assets.take(0) == Seq::<Asset>::empty());
    while i < release.assets.len()
        invariant
            i <= release.assets.len(),
            assets == release.assets@,
            first_installable(assets.take(i as int)) is None,
        decreases release.assets.len() - i,
    {
        assert(assets.take(i + 1).drop_last() == assets.take(i as int));
        assert(assets.take(i + 1).last() == assets[i as int]);
        let asset = &release.assets[i];
        if is_supported_archive(asset) && is_steam_deck_archive(asset) {
            proof {
                lemma_first_installable_prefix(assets, i + 1);
            }
            return Some(
                DownloadPlan {
                    url: asset.browser_download_url.clone(),
                    compression_type: asset_compression(asset),
                },
            );
        }
        i = i + 1;
    }
    assert(assets.take(i as int) == assets);
    None
}

proof fn lemma_first_installable_prefix(assets: Seq<Asset>, n: int)
    requires
        0 <= n <= assets.len(),
        first_installable(assets.take(n)) is Some,
    ensures
        first_installable(assets) == first_installable(assets.take(n)),
    decreases assets.len(),
{
    if n == assets.len() {
        assert(assets.take(n) == assets);
    } else {
        assert(assets.drop_last().take(n) == assets.take(n));
        lemma_first_installable_prefix(assets.drop_last(), n);
    }
}

/// The file that is chosen can be installed and no file before it can; none is chosen
/// exactly when no file can be installed.
pub proof fn law_first_installable_is_first(assets: Seq<Asset>)
    ensures
        match first_installable(assets) {
            Some(i) => {
                &&& 0 <= i < assets.len()
                &&& is_installable(assets[i])
                &&& forall|j: int| 0 <= j < i ==> !is_installable(#[trigger] assets[j])
            },
            None => forall|j: int| 0 <= j < assets.len() ==> !is_installable(#[trigger] assets[j]),
        },
    decreases assets.len(),
{
    if assets.len() > 0 {
        let before = assets.drop_last();
        law_first_installable_is_first(before);
        assert forall|j: int| 0 <= j < before.len() implies #[trigger] assets[j] == before[j] by {}
    }
}

/// A build for another processor is never downloaded, and what is downloaded is
/// compressed in a known way.
pub proof fn law_download_fits_steam_deck(release: Release)
    requires
        planned_download(release) is Some,
    ensures
        exists|i: int|
            0 <= i < release.assets@.len() && is_for_steam_deck(#[trigger] release.assets@[i])
                && planned_download(release)->0.url == release.assets@[i].browser_download_url,
        planned_download(release)->0.compression_type != CompressionType::Unknown,
{
    law_first_installable_is_first(release.assets@);
    let i = first_installable(release.assets@)->0;
    assert(is_for_steam_deck(release.assets@[i]));
}

/// Files that are added after the one that is downloaded do not change what is downloaded.
pub proof fn law_later_assets_do_not_matter(assets: Seq<Asset>, more: Seq<Asset>)
    requires
        first_installable(assets) is Some,
    ensures
        first_installable(assets + more) == first_installable(assets),
        download_of(assets + more) == download_of(assets),
{
    assert((assets + more).take(assets.len() as int) == assets);
    lemma_first_installable_prefix(assets + more, assets.len() as int);
    law_first_installable_is_first(assets);
}

/// Files that cannot be installed do not change what is downloaded, wherever among the
/// others they are.
pub proof fn law_uninstallable_assets_do_not_matter(
    before: Seq<Asset>,
    extra: Seq<Asset>,
    after: Seq<Asset>,
)
    requires
        forall|i: int| 0 <= i < extra.len() ==> !is_installable(#[trigger] extra[i]),
    ensures
        download_of(before + extra + after) == download_of(before + after),
{
    let with = before + extra + after;
    let without = before + after;
    law_first_installable_is_first(with);
    law_first_installable_is_first(without);
    assert forall|i: int| 0 <= i < before.len() implies with[i] == #[trigger] without[i] by {}
    assert forall|i: int| before.len() <= i < without.len() implies #[trigger] without[i] == with[i
        + extra.len()] by {}
    assert forall|i: int| before.len() <= i < before.len() + extra.len() implies !is_installable(
        #[trigger] with[i],
    ) by {
        assert(with[i] == extra[i - before.len()]);
    }
    assert forall|i: int| before.len() + extra.len() <= i < with.len() implies #[trigger] with[i]
        == without[i - extra.len()] by {}
    if let Some(i) = first_installable(with) {
        if let Some(j) = first_installable(without) {
            let place = if j < before.len() {
                j
            } else {
                j + extra.len()
            };
            assert(with[place] == without[j]);
            assert(place == i) by {
                if i < place {
                    let k = if i < before.len() {
                        i
                    } else {
                        i - extra.len()
                    };
                    assert(without[k] == with[i]);
                }
            }
        } else {
            let k = if i < before.len() {
                i
            } else {
                i - extra.len()
            };
            assert(without[k] == with[i]);
        }
    } else if let Some(j) = first_installable(without) {
        let place = if j < before.len() {
            j
        } else {
            j + extra.len()
        };
        assert(with[place] == without[j]);
    }
}

/// Is the file an archive that a Steam Deck can use: a gzip or xz archive by its content
/// type or by the end of its name, whose name has no other processor as a part of it?
/// Capital letters in the name count as small ones.
pub open spec fn is_usable(asset: Asset) -> bool {
    let name = text::ascii_lowercase(asset.name@);
    &&& {
        ||| text::has_last_part(name, ".tar.gz"@)
        ||| text::has_last_part(name, ".tar.xz"@)
        ||| asset.content_type@ == "application/gzip"@
        ||| asset.content_type@ == "application/x-xz"@
    }
    &&& !text::has_part(name, "aarch64"@)
    &&& !text::has_part(name, "arm64"@)
    &&& !text::has_part(name, "armv7"@)
    &&& !text::has_part(name, "armhf"@)
    &&& !text::has_part(name, "riscv64"@)
    &&& !text::has_part(name, "ppc64"@)
    &&& !text::has_part(name, "s390x"@)
    &&& !text::has_part(name, "loong64"@)
}

proof fn lemma_installable_is_usable(asset: Asset)
    ensures
        is_installable(asset) <==> is_usable(asset),
{
    let name = text::ascii_lowercase(asset.name@);
    text::law_ends_in_is_the_last_part(name, ".tar.gz"@);
    text::law_ends_in_is_the_last_part(name, ".tar.xz"@);
    text::law_occurs_in_is_a_part(name, "aarch64"@);
    text::law_occurs_in_is_a_part(name, "arm64"@);
    text::law_occurs_in_is_a_part(name, "armv7"@);
    text::law_occurs_in_is_a_part(name, "armhf"@);
    text::law_occurs_in_is_a_part(name, "riscv64"@);
    text::law_occurs_in_is_a_part(name, "ppc64"@);
    text::law_occurs_in_is_a_part(name, "s390x"@);
    text::law_occurs_in_is_a_part(name, "loong64"@);
}

/// What is downloaded is the first of the release's files that a Steam Deck can use, from
/// the address of that file; nothing is downloaded exactly when there is no such file.
pub proof fn law_first_usable_file_is_downloaded(release: Release)
    ensures
        match planned_download(release) {
            Some(plan) => exists|i: int|
                #![trigger release.assets@[i]]
                {
                    &&& 0 <= i < release.assets@.len()
                    &&& is_usable(release.assets@[i])
                    &&& forall|j: int| 0 <= j < i ==> !is_usable(#[trigger] release.assets@[j])
                    &&& plan.url == release.assets@[i].browser_download_url
                },
            None => forall|j: int|
                0 <= j < release.assets@.len() ==> !is_usable(#[trigger] release.assets@[j]),
        },
{
    let assets = release.assets@;
    law_first_installable_is_first(assets);
    assert forall|j: int| 0 <= j < assets.len() implies (is_installable(assets[j]) <==> is_usable(
        #[trigger] assets[j],
    )) by {
        lemma_installable_is_usable(assets[j]);
    }
    if let Some(i) = first_installable(assets) {
        assert(is_usable(assets[i]));
    }
}

/// How a download is compressed is told by the end of the file's name, whatever its content
/// type; and by its content type where the name does not tell. Capital letters in the name
/// count as small ones.
pub proof fn law_name_tells_the_compression(release: Release)
    requires
        planned_download(release) is Some,
    ensures
        exists|i: int|
            #![trigger release.assets@[i]]
            {
                let asset = release.assets@[i];
                let name = text::ascii_lowercase(asset.name@);
                let compression = planned_download(release)->0.compression_type;
                let gz = text::has_last_part(name, ".tar.gz"@);
                let xz = text::has_last_part(name, ".tar.xz"@);
                &&& 0 <= i < release.assets@.len()
                &&& is_usable(asset)
                &&& forall|j: int| 0 <= j < i ==> !is_usable(#[trigger] release.assets@[j])
                &&& planned_download(release)->0.url == asset.browser_download_url
                &&& !(gz && xz)
                &&& gz ==> compression == CompressionType::Gzip
                &&& xz ==> compression == CompressionType::Xz
                &&& !gz && !xz && asset.content_type@ == "application/gzip"@ ==> compression
                    == CompressionType::Gzip
                &&& !gz && !xz && asset.content_type@ == "application/x-xz"@ ==> compression
                    == CompressionType::Xz
            },
{
    let assets = release.assets@;
    law_first_installable_is_first(assets);
    assert forall|j: int| 0 <= j < assets.len() implies (is_installable(assets[j]) <==> is_usable(
        #[trigger] assets[j],
    )) by {
        lemma_installable_is_usable(assets[j]);
    }
    let i = first_installable(assets)->0;
    let asset = assets[i];
    let name = text::ascii_lowercase(asset.name@);
    text::law_ends_in_is_the_last_part(name, ".tar.gz"@);
    text::law_ends_in_is_the_last_part(name, ".tar.xz"@);
    reveal_strlit(".tar.gz");
    reveal_strlit(".tar.xz");
    reveal_strlit("application/gzip");
    reveal_strlit("application/x-xz");
    assert("application/gzip"@.len() != "application/x-xz"@.len() || "application/gzip"@[12]
        != "application/x-xz"@[12]);
    if text::has_last_part(name, ".tar.gz"@) && text::has_last_part(name, ".tar.xz"@) {
        let a = choose|before: Seq<char>| name == #[trigger] (before + ".tar.gz"@);
        let b = choose|before: Seq<char>| name == #[trigger] (before + ".tar.xz"@);
        assert(name.last() == (a + ".tar.gz"@).last() && name.last() == (b + ".tar.xz"@).last());
        assert(name[name.len() - 2] == (a + ".tar.gz"@)[name.len() - 2]);
        assert(name[name.len() - 2] == (b + ".tar.xz"@)[name.len() - 2]);
    }
    assert(is_usable(asset));
}

/// An archive is kept under a name that ends as archives of its kind do, and archives of
/// different kinds are kept under different names.
pub proof fn law_archive_name_tells_the_compression()
    ensures
        archive_name(CompressionType::Gzip) == "download"@ + ".tar.gz"@,
        archive_name(CompressionType::Xz) == "download"@ + ".tar.xz"@,
        archive_name(CompressionType::Unknown) == "download"@ + ".tar"@,
{
    reveal_strlit("download");
    reveal_strlit(".tar.gz");
    reveal_strlit(".tar.xz");
    reveal_strlit(".tar");
    reveal_strlit("download.tar.gz");
    reveal_strlit("download.tar.xz");
    reveal_strlit("download.tar");
    assert(archive_name(CompressionType::Gzip) =~= "download"@ + ".tar.gz"@);
    assert(archive_name(CompressionType::Xz) =~= "download"@ + ".tar.xz"@);
    assert(archive_name(CompressionType::Unknown) =~= "download"@ + ".tar"@);
}

} // verus!
