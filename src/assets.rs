//! Names of the textures and sounds that the client's front end loads.
use vstd::prelude::*;

verus! {

/// The file name of each Txts, without extension.
pub open spec fn txts_stem(x: Txts) -> Seq<char> {
    match x {
        Txts::White => "white"@,
        Txts::BlockComponent => "block_component"@,
        Txts::BlockComponentWhite => "block_component_white"@,
        Txts::LaserProjectile => "laser_projectile"@,
        Txts::MissileProjectile => "missile_projectile"@,
        Txts::LaserWeaponComponent => "laser_weapon_component"@,
        Txts::LaserWeaponComponentWhite => "laser_weapon_component_white"@,
        Txts::MissileWeaponComponent => "missile_weapon_component"@,
        Txts::RaptorEngineComponent => "raptor_engine_component"@,
        Txts::RaptorEngineComponentWhite => "raptor_engine_component_white"@,
        Txts::StarBase => "star_base"@,
        Txts::StarryNight => "starry_night"@,
    }
}

/// The file name of each Snds, without extension.
pub open spec fn snds_stem(x: Snds) -> Seq<char> {
    match x {
        Snds::LaserFired => "laser_fired"@,
        Snds::SpacecraftDeployed => "spacecraft_deployed"@,
        Snds::StarBaseHit => "star_base_hit"@,
        Snds::LaserHit => "laser_hit"@,
    }
}

/// The textures of the scene; each is loaded from the file named by `stem`.
#[derive(Clone, Copy, Debug, PartialEq, Eq, Structural)]
pub enum Txts {
    White,
    BlockComponent,
    BlockComponentWhite,
    LaserProjectile,
    MissileProjectile,
    LaserWeaponComponent,
    LaserWeaponComponentWhite,
    MissileWeaponComponent,
    RaptorEngineComponent,
    RaptorEngineComponentWhite,
    StarBase,
    StarryNight,
}

impl Default for Txts {
    fn default() -> (r: Self)
        ensures
            r == Txts::White,
    {
        Txts::White
    }
}

impl Txts {
    /// Every texture, in declaration order.
    pub fn all() -> (r: Vec<Txts>)
        ensures
            r@ == seq![
                Txts::White,
                Txts::BlockComponent,
                Txts::BlockComponentWhite,
                Txts::LaserProjectile,
                Txts::MissileProjectile,
                Txts::LaserWeaponComponent,
                Txts::LaserWeaponComponentWhite,
                Txts::MissileWeaponComponent,
                Txts::RaptorEngineComponent,
                Txts::RaptorEngineComponentWhite,
                Txts::StarBase,
                Txts::StarryNight,
            ],
    {
        let r = vec![
            Txts::White,
            Txts::BlockComponent,
            Txts::BlockComponentWhite,
            Txts::LaserProjectile,
            Txts::MissileProjectile,
            Txts::LaserWeaponComponent,
            Txts::LaserWeaponComponentWhite,
            Txts::MissileWeaponComponent,
            Txts::RaptorEngineComponent,
            Txts::RaptorEngineComponentWhite,
            Txts::StarBase,
            Txts::StarryNight,
        ];
        assert(r@ =~= seq![
            Txts::White,
            Txts::BlockComponent,
            Txts::BlockComponentWhite,
            Txts::LaserProjectile,
            Txts::MissileProjectile,
            Txts::LaserWeaponComponent,
            Txts::LaserWeaponComponentWhite,
            Txts::MissileWeaponComponent,
            Txts::RaptorEngineComponent,
            Txts::RaptorEngineComponentWhite,
            Txts::StarBase,
            Txts::StarryNight,
        ]);
        r
    }

    /// The file name of the texture, without extension: the variant's name
    /// in snake case.
    pub fn stem(self) -> (r: &'static str)
        ensures
            r@ == txts_stem(self),
    {
        match self {
            Txts::White => "white",
            Txts::BlockComponent => "block_component",
            Txts::BlockComponentWhite => "block_component_white",
            Txts::LaserProjectile => "laser_projectile",
            Txts::MissileProjectile => "missile_projectile",
            Txts::LaserWeaponComponent => "laser_weapon_component",
            Txts::LaserWeaponComponentWhite => "laser_weapon_component_white",
            Txts::MissileWeaponComponent => "missile_weapon_component",
            Txts::RaptorEngineComponent => "raptor_engine_component",
            Txts::RaptorEngineComponentWhite => "raptor_engine_component_white",
            Txts::StarBase => "star_base",
            Txts::StarryNight => "starry_night",
        }
    }
}

/// The sound effects; each is loaded from `assets/sounds/<stem>.wav`.
#[derive(Clone, Copy, Debug, PartialEq, Eq, Structural)]
pub enum Snds {
    LaserFired,
    SpacecraftDeployed,
    StarBaseHit,
    LaserHit,
}

impl Snds {
    /// The file name of the sound, without extension.
    pub fn stem(self) -> (r: &'static str)
        ensures
            r@ == snds_stem(self),
    {
        match self {
            Snds::LaserFired => "laser_fired",
            Snds::SpacecraftDeployed => "spacecraft_deployed",
            Snds::StarBaseHit => "star_base_hit",
            Snds::LaserHit => "laser_hit",
        }
    }
}

} // verus!
