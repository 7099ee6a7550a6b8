use antenna_toolbox::designs::designs;
use antenna_toolbox::kv::{decode, encode};
use antenna_toolbox::material::Material;
use antenna_toolbox::settings::{restore, snapshot, Settings};
use antenna_toolbox::state::Deembed;

fn start() -> Settings {
    Settings {
        design: designs()[0],
        metal: Material::Copper,
        site_transmits: true,
        site_aim: false,
        far_aim: false,
        itm_climate: 5,
        itm_ground: 0,
        itm_vertical: true,
        itm_sea_auto: true,
        vna_points: 401,
        vna_cable: 0,
        vna_deembed: Deembed::Off,
    }
}

fn same(a: &Settings, b: &Settings) -> bool {
    a.design.id == b.design.id
        && a.metal == b.metal
        && a.site_transmits == b.site_transmits
        && a.site_aim == b.site_aim
        && a.far_aim == b.far_aim
        && a.itm_climate == b.itm_climate
        && a.itm_ground == b.itm_ground
        && a.itm_vertical == b.itm_vertical
        && a.itm_sea_auto == b.itm_sea_auto
        && a.vna_points == b.vna_points
        && a.vna_cable == b.vna_cable
        && a.vna_deembed == b.vna_deembed
}

#[test]
fn saved_settings_come_back_as_they_were() {
    let s = Settings {
        design: designs()[5],
        metal: Material::Brass,
        site_transmits: false,
        site_aim: true,
        far_aim: true,
        itm_climate: 2,
        itm_ground: 8,
        itm_vertical: false,
        itm_sea_auto: false,
        vna_points: 1001,
        vna_cable: 3,
        vna_deembed: Deembed::Measured,
    };
    let saved = decode(&encode(&snapshot(&s)));
    let mut cur = start();
    restore(&mut cur, &saved, 7, 9, 5, true);
    assert!(same(&cur, &s));
}

#[test]
fn a_climate_is_saved_by_its_code_from_one() {
    let mut s = start();
    s.itm_climate = 0;
    let text = encode(&snapshot(&s));
    assert!(text.contains("itm_climate=1\n"));
    assert!(text.contains("design=moxon\n"));
    assert!(text.contains("metal=Copper\n"));
    assert!(text.contains("vna_deembed=off\n"));
}

#[test]
fn what_does_not_read_stays_as_it_was() {
    let text = "design=nosuch\nmetal=Gold\nsite_transmits=yes\nitm_climate=0\nitm_ground=9\n\
                vna_points=-3\nvna_cable=40\nvna_deembed=measured\n";
    let mut cur = start();
    cur.metal = Material::Steel;
    restore(&mut cur, &decode(text), 7, 9, 5, false);
    assert_eq!(cur.design.id, designs()[0].id);
    assert_eq!(cur.metal, Material::Steel);
    assert!(cur.site_transmits);
    assert_eq!(cur.itm_climate, 5);
    assert_eq!(cur.itm_ground, 0);
    assert_eq!(cur.vna_points, 401);
    assert_eq!(cur.vna_cable, 4);
    assert_eq!(cur.vna_deembed, Deembed::Off);
}

#[test]
fn with_nothing_saved_only_the_de_embedding_resets() {
    let mut cur = start();
    cur.vna_deembed = Deembed::Cable;
    restore(&mut cur, &decode(""), 7, 9, 5, true);
    let mut want = start();
    want.vna_deembed = Deembed::Off;
    assert!(same(&cur, &want));
}
