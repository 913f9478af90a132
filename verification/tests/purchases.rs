use holograph_server::catalogue::parse_purchase;
use holograph_server::purchases::{purchase_effect, purchase_step, PurchaseAction, PurchaseEffect};

#[test]
fn purchases_need_credits_and_a_receiver() {
    let own = parse_purchase("x\rpage\ry\rchair\r\r0").unwrap();
    assert_eq!(purchase_step(&own, 0, 50, "amy", 0), PurchaseAction::Refused);
    assert_eq!(purchase_step(&own, 60, 50, "amy", 0), PurchaseAction::Refused);
    assert_eq!(purchase_step(&own, 20, 50, "amy", 0), PurchaseAction::Buy { to_other: false, new_credits: 30 });
    let gift = parse_purchase("x\rpage\ry\rchair\r\r1\rbob\rhi").unwrap();
    assert_eq!(purchase_step(&gift, 20, 50, "amy", 0), PurchaseAction::UnknownReceiver);
    assert_eq!(purchase_step(&gift, 20, 50, "amy", 9), PurchaseAction::Buy { to_other: true, new_credits: 30 });
    assert_eq!(purchase_step(&gift, 20, 50, "bob", 0), PurchaseAction::Buy { to_other: false, new_credits: 30 });
}

#[test]
fn bought_items_get_what_their_sprite_needs() {
    assert_eq!(purchase_effect("wallpaper"), PurchaseEffect::Decoration);
    assert_eq!(purchase_effect("roomdimmer"), PurchaseEffect::Moodlight);
    assert_eq!(purchase_effect("doorB"), PurchaseEffect::TeleporterPair);
    assert_eq!(purchase_effect("post.it.vd"), PurchaseEffect::StickyPad);
    assert_eq!(purchase_effect("sound_set_12"), PurchaseEffect::SoundSet(12));
    assert_eq!(purchase_effect("sound_set_x"), PurchaseEffect::SoundSet(0));
    assert_eq!(purchase_effect("chair"), PurchaseEffect::Plain);
}
