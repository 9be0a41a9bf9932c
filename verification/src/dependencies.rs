//! What the Settings window tells about a module's system dependencies: the
//! packages to install, the command that installs them, and notes.

use vstd::prelude::*;

use crate::settings_types::PackageManager;
use crate::text::{join, owned, push_joined, same_text, views};

verus! {

/// The modules that come with dependency help.
pub open spec fn helped(id: Seq<char>) -> bool {
    id == "text-extractor"@ || id == "color-picker"@ || id == "paste-plain"@
}

/// Whether the module `id` comes with dependency help.
pub fn has_dependency_help(id: &str) -> (b: bool)
    ensures
        b == helped(id@),
{
    same_text(id, "text-extractor") || same_text(id, "color-picker") || same_text(id, "paste-plain")
}

/// The packages a module needs, as the package manager names them.
pub open spec fn packages_of(id: Seq<char>, pm: PackageManager) -> Option<Seq<Seq<char>>> {
    if id == "text-extractor"@ {
        Some(
            seq![
                if pm == PackageManager::Apt {
                    "tesseract-ocr"@
                } else {
                    "tesseract"@
                },
                "wl-clipboard"@,
                "xclip"@,
                "gnome-screenshot"@,
                "scrot"@,
            ],
        )
    } else if id == "color-picker"@ {
        Some(seq!["wl-clipboard"@, "xclip"@, "xdotool"@, "gnome-screenshot"@, "scrot"@])
    } else if id == "paste-plain"@ {
        Some(seq!["wl-clipboard"@, "xclip"@, "xdotool"@])
    } else {
        None
    }
}

/// The packages the module `id` needs; none for a module without help.
pub fn dependency_packages(id: &str, pm: PackageManager) -> (r: Option<Vec<String>>)
    ensures
        match r {
            Some(v) => packages_of(id@, pm) == Some(views(v@)),
            None => packages_of(id@, pm) is None,
        },
{
    if same_text(id, "text-extractor") {
        let ocr = if pm == PackageManager::Apt {
            owned("tesseract-ocr")
        } else {
            owned("tesseract")
        };
        let v = vec![ocr, owned("wl-clipboard"), owned("xclip"), owned("gnome-screenshot"), owned("scrot")];
        assert(views(v@) =~= packages_of(id@, pm)->0);
        Some(v)
    } else if same_text(id, "color-picker") {
        let v = vec![owned("wl-clipboard"), owned("xclip"), owned("xdotool"), owned("gnome-screenshot"), owned("scrot")];
        assert(views(v@) =~= packages_of(id@, pm)->0);
        Some(v)
    } else if same_text(id, "paste-plain") {
        let v = vec![owned("wl-clipboard"), owned("xclip"), owned("xdotool")];
        assert(views(v@) =~= packages_of(id@, pm)->0);
        Some(v)
    } else {
        None
    }
}

/// The notes shown beside a module's packages; under Wayland, a warning
/// about `xdotool` is added for the modules that simulate input.
pub open spec fn notes_of(id: Seq<char>, wayland: bool) -> Seq<Seq<char>> {
    let base: Seq<Seq<char>> = if id == "text-extractor"@ {
        seq![
            "Le module a besoin de Tesseract pour faire l'OCR."@,
            "Pour Wayland wlroots, vous pouvez aussi installer grim + slurp."@,
        ]
    } else if id == "color-picker"@ {
        seq![
            "Le module a besoin d'un outil de capture d'écran et du presse-papiers."@,
            "Le test lit la position souris via xdotool."@,
        ]
    } else if id == "paste-plain"@ {
        seq![
            "Le module utilise wl-clipboard/xclip pour le presse-papiers."@,
            "Le collage est simulé via xdotool (Ctrl+V)."@,
        ]
    } else {
        seq![]
    };
    if wayland && (id == "color-picker"@ || id == "paste-plain"@) {
        base.push(
            "Sous Wayland, xdotool peut etre limité selon votre session. Si besoin, testez en session X11."@,
        )
    } else {
        base
    }
}

/// The notes on the module `id`'s dependencies, for a Wayland session or
/// not.
pub fn dependency_notes(id: &str, wayland: bool) -> (v: Vec<String>)
    ensures
        views(v@) == notes_of(id@, wayland),
{
    let mut v: Vec<String> = if same_text(id, "text-extractor") {
        vec![
            owned("Le module a besoin de Tesseract pour faire l'OCR."),
            owned("Pour Wayland wlroots, vous pouvez aussi installer grim + slurp."),
        ]
    } else if same_text(id, "color-picker") {
        vec![
            owned("Le module a besoin d'un outil de capture d'écran et du presse-papiers."),
            owned("Le test lit la position souris via xdotool."),
        ]
    } else if same_text(id, "paste-plain") {
        vec![
            owned("Le module utilise wl-clipboard/xclip pour le presse-papiers."),
            owned("Le collage est simulé via xdotool (Ctrl+V)."),
        ]
    } else {
        Vec::new()
    };
    let ghost base = views(v@);
    if wayland && (same_text(id, "color-picker") || same_text(id, "paste-plain")) {
        let w = owned(
            "Sous Wayland, xdotool peut etre limité selon votre session. Si besoin, testez en session X11.",
        );
        proof {
            crate::text::lemma_views_push(v@, w);
        }
        v.push(w);
    }
    assert(views(v@) =~= notes_of(id@, wayland));
    v
}

/// What a package manager's install command starts with.
pub open spec fn install_prefix(pm: PackageManager) -> Seq<char> {
    match pm {
        PackageManager::Apt => "sudo apt install "@,
        PackageManager::Pacman => "sudo pacman -S --needed "@,
        PackageManager::Dnf => "sudo dnf install "@,
        PackageManager::Zypper => "sudo zypper install "@,
        PackageManager::Unknown => "install: "@,
    }
}

/// The packages each module needs: the OCR module tesseract (named
/// `tesseract-ocr` by apt), both clipboard tools and both screenshot tools;
/// the colour picker both clipboard tools, xdotool and both screenshot
/// tools; plain pasting both clipboard tools and xdotool; no other module
/// has a list.
pub proof fn law_dependency_packages(pm: PackageManager, id: Seq<char>)
    ensures
        packages_of("text-extractor"@, PackageManager::Apt) == Some(
            seq!["tesseract-ocr"@, "wl-clipboard"@, "xclip"@, "gnome-screenshot"@, "scrot"@],
        ),
        pm != PackageManager::Apt ==> packages_of("text-extractor"@, pm) == Some(
            seq!["tesseract"@, "wl-clipboard"@, "xclip"@, "gnome-screenshot"@, "scrot"@],
        ),
        packages_of("color-picker"@, pm) == Some(
            seq!["wl-clipboard"@, "xclip"@, "xdotool"@, "gnome-screenshot"@, "scrot"@],
        ),
        packages_of("paste-plain"@, pm) == Some(seq!["wl-clipboard"@, "xclip"@, "xdotool"@]),
        helped(id) <==> packages_of(id, pm) is Some,
        helped("text-extractor"@) && helped("color-picker"@) && helped("paste-plain"@),
{
    reveal_strlit("text-extractor");
    reveal_strlit("color-picker");
    reveal_strlit("paste-plain");
    assert("text-extractor"@.len() == 14);
    assert("color-picker"@.len() == 12);
    assert("paste-plain"@.len() == 11);
}

/// The notes on each module's dependencies; in a Wayland session the colour
/// picker and plain pasting get one more note, on xdotool's limits, and the
/// others none.
pub proof fn law_dependency_notes(id: Seq<char>)
    ensures
        notes_of("text-extractor"@, false) == seq![
            "Le module a besoin de Tesseract pour faire l'OCR."@,
            "Pour Wayland wlroots, vous pouvez aussi installer grim + slurp."@,
        ],
        notes_of("color-picker"@, false) == seq![
            "Le module a besoin d'un outil de capture d'écran et du presse-papiers."@,
            "Le test lit la position souris via xdotool."@,
        ],
        notes_of("paste-plain"@, false) == seq![
            "Le module utilise wl-clipboard/xclip pour le presse-papiers."@,
            "Le collage est simulé via xdotool (Ctrl+V)."@,
        ],
        !helped(id) ==> notes_of(id, false).len() == 0 && notes_of(id, true).len() == 0,
        notes_of("text-extractor"@, true) == notes_of("text-extractor"@, false),
        notes_of("color-picker"@, true) == notes_of("color-picker"@, false).push(
            "Sous Wayland, xdotool peut etre limité selon votre session. Si besoin, testez en session X11."@,
        ),
        notes_of("paste-plain"@, true) == notes_of("paste-plain"@, false).push(
            "Sous Wayland, xdotool peut etre limité selon votre session. Si besoin, testez en session X11."@,
        ),
{
    reveal_strlit("text-extractor");
    reveal_strlit("color-picker");
    reveal_strlit("paste-plain");
    assert("text-extractor"@.len() == 14);
    assert("color-picker"@.len() == 12);
    assert("paste-plain"@.len() == 11);
}

/// The install commands: apt install, pacman -S --needed, dnf install and
/// zypper install, all through sudo, and a bare `install:` for an unknown
/// package manager.
pub proof fn law_install_prefixes()
    ensures
        install_prefix(PackageManager::Apt) == "sudo apt install "@,
        install_prefix(PackageManager::Pacman) == "sudo pacman -S --needed "@,
        install_prefix(PackageManager::Dnf) == "sudo dnf install "@,
        install_prefix(PackageManager::Zypper) == "sudo zypper install "@,
        install_prefix(PackageManager::Unknown) == "install: "@,
{
}

/// The command that installs `packages`: the package manager's command,
/// then the packages separated by spaces.
pub fn install_command(pm: PackageManager, packages: &Vec<String>) -> (s: String)
    ensures
        s@ == install_prefix(pm) + join(views(packages@), seq![' ']),
{
    let mut s = match pm {
        PackageManager::Apt => owned("sudo apt install "),
        PackageManager::Pacman => owned("sudo pacman -S --needed "),
        PackageManager::Dnf => owned("sudo dnf install "),
        PackageManager::Zypper => owned("sudo zypper install "),
        PackageManager::Unknown => owned("install: "),
    };
    push_joined(&mut s, packages, ' ');
    s
}

} // verus!
