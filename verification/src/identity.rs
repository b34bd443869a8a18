//! The identity under which a relayed copy is shown: the author's display
//! name, and an avatar URL derived from the author's avatar hash, legacy
//! discriminator and id.

use crate::model::{Author, AuthorView, AvatarHash, IdentitySnapshot, IdentitySnapshotView};
use crate::text::{decimal, decimal_string};
use twilight_model::util::ImageHash;
use vstd::prelude::*;

verus! {

/// The text that the platform's model crate gives for an avatar hash with
/// these packed bytes and this animation flag.
pub uninterp spec fn image_hash_text(bytes: Seq<u8>, animated: bool) -> Seq<char>;

/// Formats an avatar hash by `twilight_model::util::ImageHash`: the hash is
/// rebuilt from its parts with `ImageHash::new` and written with its
/// `Display` impl. The text depends on the bytes and the flag alone; the
/// contract gives it the name [`image_hash_text`] and claims nothing more.
#[verifier::external_body]
fn image_hash_string(hash: AvatarHash) -> (text: String)
    ensures
        text@ == image_hash_text(hash.bytes@, hash.animated),
{
    ImageHash::new(hash.bytes, hash.animated).to_string()
}

/// The index of the default avatar of an author without a custom one.
///
/// An author on the new username scheme (legacy discriminator `0`) gets the
/// id shifted right by four bits; any other gets the discriminator modulo
/// five.
pub open spec fn default_avatar_index(author_id: u64, legacy_discriminator: u16) -> nat {
    if legacy_discriminator == 0 {
        (author_id >> 4u64) as nat
    } else {
        (legacy_discriminator % 5) as nat
    }
}

/// The image reference of an author's avatar: the custom hash where there is
/// one, else the numeral of the default avatar index.
pub open spec fn avatar_reference_of(
    avatar_hash: Option<AvatarHash>,
    legacy_discriminator: u16,
    author_id: u64,
) -> Seq<char> {
    match avatar_hash {
        Some(hash) => image_hash_text(hash.bytes@, hash.animated),
        None => decimal(default_avatar_index(author_id, legacy_discriminator)),
    }
}

/// The avatar asset URL for an author id and an image reference.
pub open spec fn avatar_url_with(author_id: u64, reference: Seq<char>) -> Seq<char> {
    "https://cdn.discordapp.com/avatars/"@ + decimal(author_id as nat) + "/"@ + reference
        + ".png"@
}

/// The avatar URL of an author, from the three fields it depends on.
pub open spec fn avatar_url_of(
    avatar_hash: Option<AvatarHash>,
    legacy_discriminator: u16,
    author_id: u64,
) -> Seq<char> {
    avatar_url_with(author_id, avatar_reference_of(avatar_hash, legacy_discriminator, author_id))
}

/// The identity presented for an author.
pub open spec fn identity_of(author: AuthorView) -> IdentitySnapshotView {
    IdentitySnapshotView {
        display_name: author.display_name,
        avatar_url: avatar_url_of(author.avatar_hash, author.legacy_discriminator, author.id),
    }
}

/// Computes the index of the default avatar.
pub fn default_avatar_index_of(author_id: u64, legacy_discriminator: u16) -> (index: u64)
    ensures
        index == default_avatar_index(author_id, legacy_discriminator),
{
    if legacy_discriminator == 0 {
        author_id >> 4u64
    } else {
        (legacy_discriminator % 5) as u64
    }
}

/// Resolves the image reference of an author's avatar.
pub fn avatar_reference(author: &Author) -> (reference: String)
    ensures
        reference@ == avatar_reference_of(
            author.avatar_hash,
            author.legacy_discriminator,
            author.id,
        ),
{
    match author.avatar_hash {
        Some(hash) => image_hash_string(hash),
        None => decimal_string(default_avatar_index_of(author.id, author.legacy_discriminator)),
    }
}

/// Builds the avatar asset URL from an author id and an image reference.
pub fn avatar_url_from(author_id: u64, reference: &str) -> (url: String)
    ensures
        url@ == avatar_url_with(author_id, reference@),
{
    let mut url = String::from_str("https://cdn.discordapp.com/avatars/");
    let id = decimal_string(author_id);
    url.append(id.as_str());
    url.append("/");
    url.append(reference);
    url.append(".png");
    url
}

/// Derives the identity under which an author's message is relayed.
pub fn derive_identity(author: &Author) -> (snapshot: IdentitySnapshot)
    ensures
        snapshot@ == identity_of(author@),
{
    let reference = avatar_reference(author);
    IdentitySnapshot {
        display_name: author.display_name.clone(),
        avatar_url: avatar_url_from(author.id, reference.as_str()),
    }
}

/// The avatar URL is a function of the avatar hash, the legacy discriminator
/// and the author id: two authors that agree on these three are shown with
/// the same avatar, whatever else differs.
pub proof fn law_avatar_url_is_a_function(a: AuthorView, b: AuthorView)
    requires
        a.avatar_hash == b.avatar_hash,
        a.legacy_discriminator == b.legacy_discriminator,
        a.id == b.id,
    ensures
        identity_of(a).avatar_url == identity_of(b).avatar_url,
{
}

} // verus!
