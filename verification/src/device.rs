//! Platform-level answers drawn from the traits: the battery to read, the
//! device's model and firmware names, and the state kept across a suspend.

use vstd::prelude::*;
use crate::battery::MinimeBattery;
use crate::screen::{blank_write, brightness_of, brightness_reading, brightness_write, opt_str_view, ScreenError};
use crate::sysfs::FileWrite;
use crate::text::{decimal_repr, trim, trimmed};
use crate::traits::{opt_view, Traits};

verus! {

/// What a suspend saved to restore on resume: the brightness before it.
#[derive(Debug, Clone, Copy, PartialEq, Eq, Structural)]
pub struct SuspendContext {
    brightness: u8,
}

impl SuspendContext {
    pub closed spec fn saved_brightness(self) -> u8 {
        self.brightness
    }

    pub fn new(brightness: u8) -> (r: Self)
        ensures
            r.saved_brightness() == brightness,
    {
        SuspendContext { brightness }
    }

    pub fn brightness(&self) -> (r: u8)
        ensures
            r == self.saved_brightness(),
    {
        self.brightness
    }
}

/// The battery of a device with these traits.
pub fn battery_for(traits: &Traits) -> (r: MinimeBattery)
    ensures
        opt_view(r.sysfs_dir()) == opt_view(traits.power_battery_sysfs),
        opt_view(r.charger_path()) == opt_view(traits.power_charger_online_path),
        !r.spec_charging(),
        r.spec_percentage() == 100,
{
    MinimeBattery::new(traits.power_battery_sysfs.clone(), traits.power_charger_online_path.clone())
}

/// The model name: the traits' model where they could be loaded, else
/// `Minime`.
pub fn device_model_of(traits: Option<&Traits>) -> (r: String)
    ensures
        r@ == match traits {
            Some(t) => t.device_model@,
            None => "Minime"@,
        },
{
    match traits {
        Some(t) => t.device_model.clone(),
        None => "Minime".to_owned(),
    }
}

/// The firmware name: the trimmed text of the version file where it could
/// be read, else `Minime`.
pub fn firmware_of(version_text: Option<&str>) -> (r: String)
    ensures
        r@ == match version_text {
            Some(t) => trim(t@),
            None => "Minime"@,
        },
{
    match version_text {
        Some(t) => trimmed(t),
        None => "Minime".to_owned(),
    }
}

} // verus!
verus! {

/// The writes as (path, contents) pairs.
pub open spec fn writes_view(ws: Seq<FileWrite>) -> Seq<(Seq<char>, Seq<char>)> {
    ws.map_values(|w: FileWrite| (w.path@, w.contents@))
}

/// A write of `contents` to the file `path`, where there is one.
pub open spec fn write_to(path: Option<String>, contents: Seq<char>) -> Seq<(Seq<char>, Seq<char>)> {
    match path {
        Some(p) => seq![(p@, contents)],
        None => Seq::empty(),
    }
}

/// What a suspend writes: brightness 0 to the backlight, then `4` to the
/// blank file.
pub open spec fn suspend_writes(traits: Traits) -> Seq<(Seq<char>, Seq<char>)> {
    write_to(traits.screen_backlight_path, decimal_repr(0)) + write_to(
        traits.screen_blank_path,
        "4"@,
    )
}

/// What a resume writes: `0` to the blank file, then the saved brightness
/// to the backlight.
pub open spec fn unsuspend_writes(traits: Traits, brightness: u8) -> Seq<(Seq<char>, Seq<char>)> {
    write_to(traits.screen_blank_path, "0"@) + write_to(
        traits.screen_backlight_path,
        decimal_repr(brightness as nat),
    )
}

/// The files after the writes `ws`, applied in order.
pub open spec fn apply_writes(
    files: Map<Seq<char>, Seq<char>>,
    ws: Seq<(Seq<char>, Seq<char>)>,
) -> Map<Seq<char>, Seq<char>>
    decreases ws.len(),
{
    if ws.len() == 0 {
        files
    } else {
        apply_writes(files, ws.drop_last()).insert(ws.last().0, ws.last().1)
    }
}

fn push_write(ws: &mut Vec<FileWrite>, w: Option<FileWrite>)
    ensures
        writes_view(final(ws)@) == writes_view(old(ws)@) + match w {
            Some(x) => seq![(x.path@, x.contents@)],
            None => Seq::<(Seq<char>, Seq<char>)>::empty(),
        },
{
    match w {
        Some(x) => {
            ws.push(x);
        },
        None => {},
    }
    assert(writes_view(ws@) =~= writes_view(old(ws)@) + match w {
        Some(x) => seq![(x.path@, x.contents@)],
        None => Seq::<(Seq<char>, Seq<char>)>::empty(),
    });
}

/// Suspending the screen: given the text of the backlight file (`None`
/// where there is no backlight file), the brightness it holds is kept in
/// the context, and the screen is darkened and blanked by the writes
/// returned; a backlight file that holds no brightness is an error.
pub fn suspend_plan(traits: &Traits, backlight_text: Option<&str>) -> (r: Result<
    (SuspendContext, Vec<FileWrite>),
    ScreenError,
>)
    ensures
        match brightness_reading(opt_str_view(backlight_text)) {
            Ok(b) => r matches Ok((ctx, ws)) && ctx.saved_brightness() == b && writes_view(ws@)
                == suspend_writes(*traits),
            Err(e) => r == Err::<(SuspendContext, Vec<FileWrite>), ScreenError>(e),
        },
{
    let brightness = match brightness_of(backlight_text) {
        Ok(b) => b,
        Err(e) => return Err(e),
    };
    let mut ws: Vec<FileWrite> = Vec::new();
    assert(writes_view(ws@) =~= Seq::<(Seq<char>, Seq<char>)>::empty());
    push_write(&mut ws, brightness_write(traits, 0));
    push_write(&mut ws, blank_write(traits, true));
    proof {
        crate::text::lemma_decimal_repr(0);
    }
    assert(writes_view(ws@) =~= suspend_writes(*traits));
    Ok((SuspendContext::new(brightness), ws))
}

/// Resuming the screen: unblank it, then restore the saved brightness.
pub fn unsuspend_plan(traits: &Traits, ctx: SuspendContext) -> (r: Vec<FileWrite>)
    ensures
        writes_view(r@) == unsuspend_writes(*traits, ctx.saved_brightness()),
{
    let mut ws: Vec<FileWrite> = Vec::new();
    assert(writes_view(ws@) =~= Seq::<(Seq<char>, Seq<char>)>::empty());
    push_write(&mut ws, blank_write(traits, false));
    push_write(&mut ws, brightness_write(traits, ctx.brightness()));
    assert(writes_view(ws@) =~= unsuspend_writes(*traits, ctx.saved_brightness()));
    ws
}

/// Suspending and then resuming restores the brightness: after both sets
/// of writes the backlight file holds the decimal text of the brightness it
/// held before and reads back as that brightness, and a separate blank
/// file holds `0`.
pub proof fn lemma_suspend_then_unsuspend_restores(
    traits: Traits,
    files: Map<Seq<char>, Seq<char>>,
    brightness: u8,
)
    requires
        traits.screen_backlight_path is Some,
        files.contains_key(traits.screen_backlight_path->0@),
        brightness_reading(Some(files[traits.screen_backlight_path->0@])) == Ok::<u8, ScreenError>(
            brightness,
        ),
    ensures
        ({
            let after = apply_writes(
                apply_writes(files, suspend_writes(traits)),
                unsuspend_writes(traits, brightness),
            );
            let p = traits.screen_backlight_path->0@;
            &&& after.contains_key(p)
            &&& after[p] == decimal_repr(brightness as nat)
            &&& brightness_reading(Some(after[p])) == Ok::<u8, ScreenError>(brightness)
            &&& traits.screen_blank_path matches Some(q) ==> (q@ != p ==> after[q@] == "0"@)
        }),
{
    let p = traits.screen_backlight_path->0@;
    let mid = apply_writes(files, suspend_writes(traits));
    let u = unsuspend_writes(traits, brightness);
    let after = apply_writes(mid, u);
    crate::screen::lemma_brightness_roundtrip(brightness);
    assert(u.last() == (p, decimal_repr(brightness as nat)));
    assert(after == apply_writes(mid, u.drop_last()).insert(p, decimal_repr(brightness as nat)));
    if let Some(q) = traits.screen_blank_path {
        if q@ != p {
            let w = u.drop_last();
            assert(w =~= seq![(q@, "0"@)]);
            assert(w.drop_last() =~= Seq::<(Seq<char>, Seq<char>)>::empty());
            assert(apply_writes(mid, w.drop_last()) == mid);
            assert(w.last() == (q@, "0"@));
            assert(apply_writes(mid, w) == mid.insert(q@, "0"@));
        }
    }
}

} // verus!
