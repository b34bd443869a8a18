use globalchat::identity::{
    avatar_reference, avatar_url_from, default_avatar_index_of, derive_identity,
};
use globalchat::model::{Author, AvatarHash};
use globalchat::text::decimal_string;
use twilight_model::util::ImageHash;

fn author(id: u64, avatar_hash: Option<AvatarHash>, legacy_discriminator: u16) -> Author {
    Author { id, display_name: "bob".to_string(), avatar_hash, legacy_discriminator }
}

fn packed(text: &str) -> AvatarHash {
    let hash = ImageHash::parse(text.as_bytes()).expect("a well-formed hash");
    AvatarHash { bytes: hash.bytes(), animated: hash.is_animated() }
}

#[test]
fn decimal_of_small_and_large_numbers() {
    assert_eq!(decimal_string(0), "0");
    assert_eq!(decimal_string(7), "7");
    assert_eq!(decimal_string(9), "9");
    assert_eq!(decimal_string(10), "10");
    assert_eq!(decimal_string(105), "105");
    assert_eq!(decimal_string(1_000_000), "1000000");
    assert_eq!(decimal_string(u64::MAX), "18446744073709551615");
}

#[test]
fn decimal_agrees_with_the_standard_formatting() {
    let mut n: u64 = 1;
    for _ in 0..60 {
        assert_eq!(decimal_string(n), n.to_string());
        assert_eq!(decimal_string(n - 1), (n - 1).to_string());
        n = n.wrapping_mul(3).wrapping_add(1);
    }
}

#[test]
fn default_index_of_a_new_scheme_account_is_the_id_shifted_by_four() {
    assert_eq!(default_avatar_index_of(7, 0), 0);
    assert_eq!(default_avatar_index_of(15, 0), 0);
    assert_eq!(default_avatar_index_of(16, 0), 1);
    assert_eq!(default_avatar_index_of(160, 0), 10);
    assert_eq!(default_avatar_index_of(u64::MAX, 0), u64::MAX >> 4);
}

#[test]
fn default_index_of_a_legacy_account_is_the_discriminator_modulo_five() {
    assert_eq!(default_avatar_index_of(7, 1), 1);
    assert_eq!(default_avatar_index_of(7, 4), 4);
    assert_eq!(default_avatar_index_of(7, 5), 0);
    assert_eq!(default_avatar_index_of(7, 1234), 4);
    assert_eq!(default_avatar_index_of(7, 9999), 4);
    assert_eq!(default_avatar_index_of(7, u16::MAX), 0);
}

#[test]
fn avatar_reference_without_custom_avatar() {
    assert_eq!(avatar_reference(&author(7, None, 0)), "0");
    assert_eq!(avatar_reference(&author(1600, None, 0)), "100");
    assert_eq!(avatar_reference(&author(1600, None, 7)), "2");
}

#[test]
fn avatar_reference_of_a_custom_avatar_is_its_hash_text() {
    let text = "b2a6536641da91a0b59bd66557c56c36";
    assert_eq!(avatar_reference(&author(7, Some(packed(text)), 0)), text);
    assert_eq!(avatar_reference(&author(7, Some(packed(text)), 1234)), text);
}

#[test]
fn avatar_reference_of_an_animated_avatar_keeps_its_prefix() {
    let text = "a_5145104ad8e8c9e765883813e4abbcc8";
    let hash = packed(text);
    assert!(hash.animated);
    assert_eq!(avatar_reference(&author(7, Some(hash), 0)), text);
}

#[test]
fn avatar_url_puts_id_and_reference_into_the_template() {
    assert_eq!(avatar_url_from(7, "0"), "https://cdn.discordapp.com/avatars/7/0.png");
    assert_eq!(
        avatar_url_from(381224115643482113, "b2a6536641da91a0b59bd66557c56c36"),
        "https://cdn.discordapp.com/avatars/381224115643482113/b2a6536641da91a0b59bd66557c56c36.png"
    );
    assert_eq!(avatar_url_from(0, ""), "https://cdn.discordapp.com/avatars/0/.png");
}

#[test]
fn identity_takes_the_display_name_and_the_avatar_by_priority() {
    let text = "1acefe340fafb4ecefae407f3abdb323";
    let with_hash = derive_identity(&author(42, Some(packed(text)), 0));
    assert_eq!(with_hash.display_name, "bob");
    assert_eq!(
        with_hash.avatar_url,
        "https://cdn.discordapp.com/avatars/42/1acefe340fafb4ecefae407f3abdb323.png"
    );
    let new_scheme = derive_identity(&author(4242, None, 0));
    assert_eq!(new_scheme.avatar_url, "https://cdn.discordapp.com/avatars/4242/265.png");
    let legacy = derive_identity(&author(4242, None, 13));
    assert_eq!(legacy.avatar_url, "https://cdn.discordapp.com/avatars/4242/3.png");
}

#[test]
fn same_hash_discriminator_and_id_give_the_same_avatar() {
    let first = Author {
        id: 99,
        display_name: "one".to_string(),
        avatar_hash: None,
        legacy_discriminator: 8,
    };
    let second = Author {
        id: 99,
        display_name: "another".to_string(),
        avatar_hash: None,
        legacy_discriminator: 8,
    };
    assert_eq!(derive_identity(&first).avatar_url, derive_identity(&second).avatar_url);
    assert_eq!(derive_identity(&first).avatar_url, derive_identity(&first).avatar_url);
}
