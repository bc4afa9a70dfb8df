//! The inspector's rules that do not draw anything: which components can be added, how
//! script field types are read, labels for enum choices, search over component labels,
//! and the project-settings path fields.
use vstd::prelude::*;
use crate::text::{chars_of, string_of, owned, append_str, seq_eq, trimmed, trim_chars, contains_seq,
    seq_contains_seq, lowercased, to_lowercase};
use crate::paths::{join, path_components, path_is_absolute, strip_prefix, spec_join, spec_strip_prefix, components,
    is_absolute, views};
use crate::components::{RigidBodyType, CollisionDetection};
use crate::text::{decimal, push_decimal};
use crate::sorting::string_views;
use crate::project::GameData;

verus! {

/// The components the inspector lists.
#[derive(Debug, Clone, Copy, PartialEq, Eq, Structural)]
pub enum InspectableComponent {
    Tag,
    Transform,
    Inactive,
    Sprite,
    Camera,
    RigidBody,
    Collider,
    PhysicsSettings,
    EditorOnly,
    UIButton,
    UIBar,
    UIText,
    AudioSource,
}

/// The components offered by "Add Component", in menu order.
pub open spec fn addable() -> Seq<InspectableComponent> {
    seq![
        InspectableComponent::Tag,
        InspectableComponent::Transform,
        InspectableComponent::Inactive,
        InspectableComponent::Sprite,
        InspectableComponent::Camera,
        InspectableComponent::RigidBody,
        InspectableComponent::Collider,
        InspectableComponent::EditorOnly,
        InspectableComponent::UIButton,
        InspectableComponent::UIBar,
        InspectableComponent::UIText,
        InspectableComponent::AudioSource,
    ]
}

impl InspectableComponent {
    pub fn label(self) -> (s: &'static str)
        ensures
            s@ == match self {
                InspectableComponent::Tag => "Tag"@,
                InspectableComponent::Transform => "Transform"@,
                InspectableComponent::Inactive => "Inactive"@,
                InspectableComponent::Sprite => "Sprite"@,
                InspectableComponent::Camera => "Camera"@,
                InspectableComponent::RigidBody => "Rigidbody"@,
                InspectableComponent::Collider => "Collider"@,
                InspectableComponent::PhysicsSettings => "PhysicsSettings"@,
                InspectableComponent::EditorOnly => "EditorOnly"@,
                InspectableComponent::UIButton => "UI Button"@,
                InspectableComponent::UIBar => "UI Bar"@,
                InspectableComponent::UIText => "UI Text"@,
                InspectableComponent::AudioSource => "Audio Source"@,
            },
    {
        match self {
            InspectableComponent::Tag => "Tag",
            InspectableComponent::Transform => "Transform",
            InspectableComponent::Inactive => "Inactive",
            InspectableComponent::Sprite => "Sprite",
            InspectableComponent::Camera => "Camera",
            InspectableComponent::RigidBody => "Rigidbody",
            InspectableComponent::Collider => "Collider",
            InspectableComponent::PhysicsSettings => "PhysicsSettings",
            InspectableComponent::EditorOnly => "EditorOnly",
            InspectableComponent::UIButton => "UI Button",
            InspectableComponent::UIBar => "UI Bar",
            InspectableComponent::UIText => "UI Text",
            InspectableComponent::AudioSource => "Audio Source",
        }
    }
}

/// The components that can be added to an entity: every addable one, except a second
/// `Transform` when the entity has one.
pub fn available_components(has_transform: bool) -> (out: Vec<InspectableComponent>)
    ensures
        out@ == addable().filter(|c: InspectableComponent| c != InspectableComponent::Transform || !has_transform),
{
    let all = vec![
        InspectableComponent::Tag,
        InspectableComponent::Transform,
        InspectableComponent::Inactive,
        InspectableComponent::Sprite,
        InspectableComponent::Camera,
        InspectableComponent::RigidBody,
        InspectableComponent::Collider,
        InspectableComponent::EditorOnly,
        InspectableComponent::UIButton,
        InspectableComponent::UIBar,
        InspectableComponent::UIText,
        InspectableComponent::AudioSource,
    ];
    assert(all@ =~= addable());
    let ghost keep = |c: InspectableComponent| c != InspectableComponent::Transform || !has_transform;
    let mut out: Vec<InspectableComponent> = Vec::new();
    let mut i: usize = 0;
    while i < all.len()
        invariant
            i <= all@.len(),
            keep == (|c: InspectableComponent| c != InspectableComponent::Transform || !has_transform),
            out@ == all@.take(i as int).filter(keep),
        decreases all@.len() - i,
    {
        let c = all[i];
        proof {
            assert(all@.take(i + 1) =~= all@.take(i as int).push(c));
            all@.take(i as int).lemma_filter_push(c, keep);
        }
        if c != InspectableComponent::Transform || !has_transform {
            out.push(c);
        }
        i = i + 1;
    }
    assert(all@.take(i as int) =~= all@);
    out
}

/// The kinds of script fields the inspector can edit.
#[derive(Debug, Clone, Copy, PartialEq, Eq, Structural)]
pub enum ScriptFieldKind {
    Bool,
    Int,
    UInt,
    Float,
    String,
    Vec2,
    Vec3,
}

pub open spec fn spec_script_field_kind(t: Seq<char>) -> Option<ScriptFieldKind> {
    if t == "bool"@ || t == "Boolean"@ {
        Some(ScriptFieldKind::Bool)
    } else if t == "int"@ || t == "Int32"@ {
        Some(ScriptFieldKind::Int)
    } else if t == "uint"@ || t == "UInt32"@ {
        Some(ScriptFieldKind::UInt)
    } else if t == "float"@ || t == "Single"@ {
        Some(ScriptFieldKind::Float)
    } else if t == "string"@ || t == "String"@ {
        Some(ScriptFieldKind::String)
    } else if t == "Vec2"@ || t == "Vector2"@ {
        Some(ScriptFieldKind::Vec2)
    } else if t == "Vec3"@ || t == "Vector3"@ {
        Some(ScriptFieldKind::Vec3)
    } else {
        None
    }
}

fn is_one_of(t: &[char], a: &str, b: &str) -> (r: bool)
    ensures
        r == (t@ == a@ || t@ == b@),
{
    let av = chars_of(a);
    let bv = chars_of(b);
    seq_eq(t, av.as_slice()) || seq_eq(t, bv.as_slice())
}

/// The editable kind of a C# field type, by its C# or .NET name.
pub fn script_field_kind(field_type: &str) -> (k: Option<ScriptFieldKind>)
    ensures
        k == spec_script_field_kind(field_type@),
{
    let t = chars_of(field_type);
    if is_one_of(t.as_slice(), "bool", "Boolean") {
        Some(ScriptFieldKind::Bool)
    } else if is_one_of(t.as_slice(), "int", "Int32") {
        Some(ScriptFieldKind::Int)
    } else if is_one_of(t.as_slice(), "uint", "UInt32") {
        Some(ScriptFieldKind::UInt)
    } else if is_one_of(t.as_slice(), "float", "Single") {
        Some(ScriptFieldKind::Float)
    } else if is_one_of(t.as_slice(), "string", "String") {
        Some(ScriptFieldKind::String)
    } else if is_one_of(t.as_slice(), "Vec2", "Vector2") {
        Some(ScriptFieldKind::Vec2)
    } else if is_one_of(t.as_slice(), "Vec3", "Vector3") {
        Some(ScriptFieldKind::Vec3)
    } else {
        None
    }
}

/// Whether two body types are the same variant.
pub fn rigidbody_type_matches(left: RigidBodyType, right: RigidBodyType) -> (b: bool)
    ensures
        b == (left == right),
{
    match (left, right) {
        (RigidBodyType::Static, RigidBodyType::Static) => true,
        (RigidBodyType::Dynamic, RigidBodyType::Dynamic) => true,
        (RigidBodyType::KinematicPositionBased, RigidBodyType::KinematicPositionBased) => true,
        (RigidBodyType::KinematicVelocityBased, RigidBodyType::KinematicVelocityBased) => true,
        _ => false,
    }
}

pub fn rigidbody_type_label(value: RigidBodyType) -> (s: &'static str)
    ensures
        s@ == match value {
            RigidBodyType::Static => "Static"@,
            RigidBodyType::Dynamic => "Dynamic"@,
            RigidBodyType::KinematicPositionBased => "Kinematic Position Based"@,
            RigidBodyType::KinematicVelocityBased => "Kinematic Velocity Based"@,
        },
{
    match value {
        RigidBodyType::Static => "Static",
        RigidBodyType::Dynamic => "Dynamic",
        RigidBodyType::KinematicPositionBased => "Kinematic Position Based",
        RigidBodyType::KinematicVelocityBased => "Kinematic Velocity Based",
    }
}

pub fn collision_detection_label(value: CollisionDetection) -> (s: &'static str)
    ensures
        s@ == match value {
            CollisionDetection::Discrete => "Discrete"@,
            CollisionDetection::Continuous => "Continuous"@,
        },
{
    match value {
        CollisionDetection::Discrete => "Discrete",
        CollisionDetection::Continuous => "Continuous",
    }
}

/// The collider shapes the inspector offers.
#[derive(Debug, Clone, Copy, PartialEq, Eq, Structural)]
pub enum ColliderShapeKind {
    Box,
    Circle,
    Capsule,
    ConvexPolygon,
}

impl ColliderShapeKind {
    pub fn label(self) -> (s: &'static str)
        ensures
            s@ == match self {
                ColliderShapeKind::Box => "Box"@,
                ColliderShapeKind::Circle => "Circle"@,
                ColliderShapeKind::Capsule => "Capsule"@,
                ColliderShapeKind::ConvexPolygon => "Convex Polygon"@,
            },
    {
        match self {
            ColliderShapeKind::Box => "Box",
            ColliderShapeKind::Circle => "Circle",
            ColliderShapeKind::Capsule => "Capsule",
            ColliderShapeKind::ConvexPolygon => "Convex Polygon",
        }
    }
}

/// The camera projections the inspector offers.
#[derive(Debug, Clone, Copy, PartialEq, Eq, Structural)]
pub enum CameraProjectionKind {
    Orthographic,
    Perspective,
}

impl CameraProjectionKind {
    pub fn label(self) -> (s: &'static str)
        ensures
            s@ == match self {
                CameraProjectionKind::Orthographic => "Orthographic"@,
                CameraProjectionKind::Perspective => "Perspective"@,
            },
    {
        match self {
            CameraProjectionKind::Orthographic => "Orthographic",
            CameraProjectionKind::Perspective => "Perspective",
        }
    }
}

/// Whether a widget edit changed a value and whether the change is final.
#[derive(Debug, Clone, Copy, PartialEq, Eq, Structural)]
pub struct FieldEdit {
    pub changed: bool,
    pub committed: bool,
}

impl FieldEdit {
    /// An edit that changed (and committed) the value, or did nothing.
    pub fn changed(changed: bool) -> (e: FieldEdit)
        ensures
            e == (FieldEdit { changed, committed: changed }),
    {
        FieldEdit { changed, committed: changed }
    }

    /// Folds another widget's edit into this one.
    pub fn absorb(&mut self, other: FieldEdit)
        ensures
            final(self).changed == (old(self).changed || other.changed),
            final(self).committed == (old(self).committed || other.committed),
    {
        self.changed = self.changed || other.changed;
        self.committed = self.committed || other.committed;
    }
}

/// A component section's header text.
pub fn component_header(label: &str) -> (s: String)
    ensures
        s@ == seq![' '] + label@,
{
    let mut v = vec![' '];
    let ghost first = v@;
    append_str(&mut v, label);
    assert(v@ =~= seq![' '] + label@);
    string_of(v.as_slice())
}

/// A script section's header: the trimmed class path, or `Script` when there is none.
pub fn script_component_header(class_path: &str) -> (s: String)
    ensures
        s@ == if trimmed(class_path@).len() == 0 { "Script"@ } else { trimmed(class_path@) },
{
    let raw = chars_of(class_path);
    let t = trim_chars(raw.as_slice());
    if t.len() == 0 {
        owned("Script")
    } else {
        string_of(t.as_slice())
    }
}

/// Whether a component label matches the add-component search box: an empty query
/// matches everything, otherwise the lower-cased label must contain the query.
pub fn label_matches_search(label: &str, query: &str) -> (b: bool)
    ensures
        b == (query@.len() == 0 || seq_contains_seq(lowercased(label@), query@)),
{
    let q = chars_of(query);
    if q.len() == 0 {
        return true;
    }
    let lower = to_lowercase(label);
    let l = chars_of(lower.as_str());
    contains_seq(l.as_slice(), q.as_slice())
}

/// A path shown relative to `root` when it lies inside it, else as it is.
pub fn display_project_relative_path(root: &str, path: &str) -> (s: String)
    ensures
        s@ == match spec_strip_prefix(path@, root@) {
            Some(r) => r,
            None => path@,
        },
{
    match strip_prefix(path, root) {
        Some(r) => r,
        None => owned(path),
    }
}

/// A project-settings path: relative ones are taken from `base_dir`, absolute ones must lie
/// in it, and none may contain `..`.
pub open spec fn spec_resolve_settings_path(base: Seq<char>, path: Seq<char>) -> Result<Seq<char>, Seq<char>> {
    if components(path).contains(seq!['.', '.']) {
        Err("path `"@ + path + "` must not traverse outside the project root"@)
    } else if is_absolute(path) {
        if spec_strip_prefix(path, base) is Some {
            Ok(path)
        } else {
            Err("path `"@ + path + "` is outside project root `"@ + base + "`"@)
        }
    } else {
        Ok(spec_join(base, path))
    }
}

/// Resolves a path typed into the project settings.
pub fn resolve_settings_path(base_dir: &str, path: &str) -> (r: Result<String, String>)
    ensures
        match r {
            Ok(p) => spec_resolve_settings_path(base_dir@, path@) == Ok::<Seq<char>, Seq<char>>(p@),
            Err(m) => spec_resolve_settings_path(base_dir@, path@) == Err::<Seq<char>, Seq<char>>(m@),
        },
{
    let p = chars_of(path);
    let c = path_components(p.as_slice());
    let mut i: usize = 0;
    let mut up = false;
    while i < c.len()
        invariant
            i <= c@.len(),
            up == exists|k: int| 0 <= k < i && #[trigger] views(c@)[k] == seq!['.', '.'],
        decreases c@.len() - i,
    {
        if c[i].len() == 2 && c[i][0] == '.' && c[i][1] == '.' {
            assert(views(c@)[i as int] =~= seq!['.', '.']);
            up = true;
        } else {
            assert(views(c@)[i as int] != seq!['.', '.']) by {
                if views(c@)[i as int] == seq!['.', '.'] {
                    assert(c@[i as int]@ == seq!['.', '.']);
                }
            }
        }
        i = i + 1;
    }
    proof {
        if views(c@).contains(seq!['.', '.']) {
            let k = choose|k: int| 0 <= k < views(c@).len() && views(c@)[k] == seq!['.', '.'];
        }
    }
    if up {
        let mut m = chars_of("path `");
        append_str(&mut m, path);
        append_str(&mut m, "` must not traverse outside the project root");
        return Err(string_of(m.as_slice()));
    }
    if path_is_absolute(p.as_slice()) {
        if strip_prefix(path, base_dir).is_some() {
            return Ok(owned(path));
        }
        let mut m = chars_of("path `");
        append_str(&mut m, path);
        append_str(&mut m, "` is outside project root `");
        append_str(&mut m, base_dir);
        append_str(&mut m, "`");
        return Err(string_of(m.as_slice()));
    }
    Ok(join(base_dir, path))
}

/// A required project-settings path field: the trimmed text must not be empty, and is
/// then resolved; errors are prefixed with the field's label.
pub fn resolve_project_path_required(base_dir: &str, text: &str, label: &str) -> (r: Result<String, String>)
    ensures
        trimmed(text@).len() == 0 ==> (r matches Err(m) && m@ == label@ + " cannot be empty"@),
        trimmed(text@).len() > 0 ==> match spec_resolve_settings_path(base_dir@, trimmed(text@)) {
            Ok(p) => r matches Ok(q) && q@ == p,
            Err(e) => r matches Err(m) && m@ == label@ + ": "@ + e,
        },
{
    let raw = chars_of(text);
    let t = trim_chars(raw.as_slice());
    if t.len() == 0 {
        let mut m = chars_of(label);
        append_str(&mut m, " cannot be empty");
        return Err(string_of(m.as_slice()));
    }
    let ts = string_of(t.as_slice());
    match resolve_settings_path(base_dir, ts.as_str()) {
        Ok(p) => Ok(p),
        Err(e) => {
            let mut m = chars_of(label);
            append_str(&mut m, ": ");
            append_str(&mut m, e.as_str());
            Err(string_of(m.as_slice()))
        },
    }
}

/// How a sprite's colour is applied.
#[derive(Debug, Clone, Copy, PartialEq, Eq, Structural)]
pub enum SpriteColorModeKind {
    /// No colour applied (shown as "None").
    Plain,
    Multiply,
    GrayscaleTint,
}

impl SpriteColorModeKind {
    pub open spec fn spec_label(self) -> Seq<char> {
        match self {
            SpriteColorModeKind::Plain => "None"@,
            SpriteColorModeKind::Multiply => "Multiply"@,
            SpriteColorModeKind::GrayscaleTint => "Grayscale Tint"@,
        }
    }

    /// The name shown in the colour-mode choice.
    pub fn label(self) -> (s: &'static str)
        ensures
            s@ == self.spec_label(),
    {
        match self {
            SpriteColorModeKind::Plain => "None",
            SpriteColorModeKind::Multiply => "Multiply",
            SpriteColorModeKind::GrayscaleTint => "Grayscale Tint",
        }
    }
}

pub open spec fn spec_format_modified_time(secs: nat) -> Seq<char> {
    if secs < 60 {
        decimal(secs) + "s ago"@
    } else if secs < 3600 {
        decimal(secs / 60) + "m ago"@
    } else if secs < 86400 {
        decimal(secs / 3600) + "h ago"@
    } else {
        decimal(secs / 86400) + "d ago"@
    }
}

/// How long ago a file was modified, given the seconds elapsed since.
pub fn format_modified_time(elapsed_seconds: u64) -> (s: String)
    ensures
        s@ == spec_format_modified_time(elapsed_seconds as nat),
{
    let (amount, unit) = if elapsed_seconds < 60 {
        (elapsed_seconds, 's')
    } else if elapsed_seconds < 3600 {
        (elapsed_seconds / 60, 'm')
    } else if elapsed_seconds < 86400 {
        (elapsed_seconds / 3600, 'h')
    } else {
        (elapsed_seconds / 86400, 'd')
    };
    let mut out: Vec<char> = Vec::new();
    push_decimal(&mut out, amount);
    out.push(unit);
    append_str(&mut out, " ago");
    proof {
        reveal_strlit("s ago");
        reveal_strlit("m ago");
        reveal_strlit("h ago");
        reveal_strlit("d ago");
        reveal_strlit(" ago");
        let tail = seq![unit] + " ago"@;
        assert(unit == 's' ==> tail =~= "s ago"@);
        assert(unit == 'm' ==> tail =~= "m ago"@);
        assert(unit == 'h' ==> tail =~= "h ago"@);
        assert(unit == 'd' ==> tail =~= "d ago"@);
        assert(out@ =~= decimal(amount as nat) + tail);
    }
    string_of(out.as_slice())
}

pub open spec fn spec_entity_header_metadata(tag: Option<Seq<char>>, index: nat) -> Seq<char> {
    let t = match tag {
        Some(t) => "Tag: "@ + t,
        None => "No tag"@,
    };
    t + " | ID "@ + decimal(index)
}

/// The line under an entity's name in the inspector: its tag (if any) and its index.
pub fn entity_header_metadata(tag: Option<&str>, index: u64) -> (s: String)
    ensures
        s@ == spec_entity_header_metadata(
            match tag {
                Some(t) => Some(t@),
                None => None,
            },
            index as nat,
        ),
{
    let mut out = match tag {
        Some(t) => {
            let mut v = chars_of("Tag: ");
            append_str(&mut v, t);
            v
        },
        None => chars_of("No tag"),
    };
    append_str(&mut out, " | ID ");
    push_decimal(&mut out, index);
    string_of(out.as_slice())
}

pub open spec fn fallback_tags() -> Seq<Seq<char>> {
    seq!["Untagged"@, "Camera"@, "Player"@]
}

/// The tags the tag picker offers: the game data's tags, or a short default list when
/// there is no game data or it has no tags.
pub fn resolve_tag_list(game_data: Option<&GameData>) -> (tags: Vec<String>)
    ensures
        string_views(tags@) == match game_data {
            Some(d) => if d.tags@.len() > 0 {
                string_views(d.tags@)
            } else {
                fallback_tags()
            },
            None => fallback_tags(),
        },
{
    match game_data {
        Some(d) => {
            if d.tags.len() > 0 {
                return crate::project::copy_strings(&d.tags);
            }
        },
        None => {},
    }
    let tags = vec![owned("Untagged"), owned("Camera"), owned("Player")];
    assert(string_views(tags@) =~= fallback_tags());
    tags
}

/// A character with ASCII capitals lowered, by code point.
pub open spec fn ascii_lower_code(c: char) -> u32 {
    if 'A' <= c && c <= 'Z' {
        (c as u32 + 32) as u32
    } else {
        c as u32
    }
}

/// `str::eq_ignore_ascii_case`: the same length and the same characters once ASCII
/// capitals are lowered.
pub open spec fn eq_ignore_ascii_case(a: Seq<char>, b: Seq<char>) -> bool {
    a.len() == b.len() && forall|i: int| 0 <= i < a.len() ==> #[trigger] ascii_lower_code(a[i]) == ascii_lower_code(b[i])
}

fn ascii_lower_code_exec(c: char) -> (n: u32)
    ensures
        n == ascii_lower_code(c),
{
    if 'A' <= c && c <= 'Z' {
        c as u32 + 32
    } else {
        c as u32
    }
}

fn chars_eq_ignore_ascii_case(a: &[char], b: &[char]) -> (r: bool)
    ensures
        r == eq_ignore_ascii_case(a@, b@),
{
    if a.len() != b.len() {
        return false;
    }
    let mut i: usize = 0;
    while i < a.len()
        invariant
            i <= a@.len(),
            a@.len() == b@.len(),
            forall|k: int| 0 <= k < i ==> #[trigger] ascii_lower_code(a@[k]) == ascii_lower_code(b@[k]),
        decreases a@.len() - i,
    {
        if ascii_lower_code_exec(a[i]) != ascii_lower_code_exec(b[i]) {
            return false;
        }
        i = i + 1;
    }
    true
}

/// What adding a tag from the new-tag field did.
#[derive(Debug, Clone, Copy, PartialEq, Eq, Structural)]
pub enum TagAddition {
    /// The field was blank: nothing changes and the field keeps its text.
    Blank,
    /// A tag equal to it up to ASCII case exists: the field is cleared.
    Duplicate,
    /// The trimmed text was appended: the game data is saved, the field cleared and the
    /// popup closed.
    Added,
}

/// Adds the trimmed text of the new-tag field to `tags`, unless it is blank or a tag equal
/// to it up to ASCII case exists.
pub fn add_tag(tags: &mut Vec<String>, field: &str) -> (r: TagAddition)
    ensures
        trimmed(field@).len() == 0 ==> r == TagAddition::Blank && final(tags)@ == old(tags)@,
        trimmed(field@).len() > 0 && (exists|i: int| 0 <= i < old(tags)@.len() && eq_ignore_ascii_case(
            #[trigger] old(tags)@[i]@,
            trimmed(field@),
        )) ==> r == TagAddition::Duplicate && final(tags)@ == old(tags)@,
        trimmed(field@).len() > 0 && !(exists|i: int| 0 <= i < old(tags)@.len() && eq_ignore_ascii_case(
            #[trigger] old(tags)@[i]@,
            trimmed(field@),
        )) ==> r == TagAddition::Added && final(tags)@.len() == old(tags)@.len() + 1 && final(tags)@.take(
            old(tags)@.len() as int,
        ) == old(tags)@ && final(tags)@.last()@ == trimmed(field@),
{
    let chars = chars_of(field);
    let t = trim_chars(chars.as_slice());
    if t.len() == 0 {
        return TagAddition::Blank;
    }
    let mut i: usize = 0;
    while i < tags.len()
        invariant
            i <= tags@.len(),
            tags@ == old(tags)@,
            t@ == trimmed(field@),
            t@.len() > 0,
            forall|k: int| 0 <= k < i ==> !eq_ignore_ascii_case(#[trigger] tags@[k]@, t@),
        decreases tags@.len() - i,
    {
        let c = chars_of(tags[i].as_str());
        if chars_eq_ignore_ascii_case(c.as_slice(), t.as_slice()) {
            return TagAddition::Duplicate;
        }
        i = i + 1;
    }
    tags.push(string_of(t.as_slice()));
    proof {
        assert(tags@.take(old(tags)@.len() as int) =~= old(tags)@);
    }
    TagAddition::Added
}

/// Whether some tag equals `t` up to ASCII case.
pub open spec fn has_tag_like(tags: Seq<String>, t: Seq<char>) -> bool {
    exists|i: int| 0 <= i < tags.len() && eq_ignore_ascii_case(#[trigger] tags[i]@, t)
}

/// The longest tag the project settings accept, in UTF-8 bytes.
pub const MAX_TAG_BYTES: u128 = 64;

/// Adds the trimmed text of the project settings' tag field to `tags` when it is not blank,
/// at most `MAX_TAG_BYTES` bytes long, and unlike every tag up to ASCII case. Returns
/// whether it was added (the field is then cleared and the settings marked changed);
/// otherwise nothing changes and the field keeps its text.
pub fn add_settings_tag(tags: &mut Vec<String>, field: &str) -> (added: bool)
    ensures
        added == (trimmed(field@).len() > 0 && crate::workspace::utf8_len(trimmed(field@)) <= MAX_TAG_BYTES
            && !has_tag_like(old(tags)@, trimmed(field@))),
        added ==> final(tags)@.len() == old(tags)@.len() + 1 && final(tags)@.take(old(tags)@.len() as int)
            == old(tags)@ && final(tags)@.last()@ == trimmed(field@),
        !added ==> final(tags)@ == old(tags)@,
{
    let chars = chars_of(field);
    let t = trim_chars(chars.as_slice());
    if t.len() == 0 || crate::workspace::utf8_length(t.as_slice()) > MAX_TAG_BYTES {
        return false;
    }
    let mut i: usize = 0;
    while i < tags.len()
        invariant
            i <= tags@.len(),
            tags@ == old(tags)@,
            t@ == trimmed(field@),
            forall|k: int| 0 <= k < i ==> !eq_ignore_ascii_case(#[trigger] tags@[k]@, t@),
        decreases tags@.len() - i,
    {
        let c = chars_of(tags[i].as_str());
        if chars_eq_ignore_ascii_case(c.as_slice(), t.as_slice()) {
            return false;
        }
        i = i + 1;
    }
    tags.push(string_of(t.as_slice()));
    proof {
        assert(tags@.take(old(tags)@.len() as int) =~= old(tags)@);
    }
    true
}

pub open spec fn is_ascii_digit(c: char) -> bool {
    '0' <= c && c <= '9'
}

/// The value of a string of decimal digits.
pub open spec fn digits_value(s: Seq<char>) -> int
    decreases s.len(),
{
    if s.len() == 0 {
        0
    } else {
        digits_value(s.drop_last()) * 10 + (s.last() as int - '0' as int)
    }
}

/// What `str::parse` gives for a decimal integer type whose values run from `min` to
/// `max`: the text must be an optional `+` (or `-`, for a signed type) followed by one or
/// more ASCII digits, and the value must fit.
pub open spec fn spec_parse_integer(s: Seq<char>, signed: bool, min: int, max: int) -> Option<int> {
    let negative = signed && s.len() > 0 && s[0] == '-';
    let body = if s.len() > 0 && (s[0] == '+' || negative) {
        s.drop_first()
    } else {
        s
    };
    let v = if negative {
        -digits_value(body)
    } else {
        digits_value(body)
    };
    if body.len() > 0 && (forall|i: int| 0 <= i < body.len() ==> #[trigger] is_ascii_digit(body[i])) && min <= v
        <= max {
        Some(v)
    } else {
        None
    }
}

/// `str::parse::<i32>`: the text read as a decimal `i32`, as `spec_parse_integer`
/// describes its documented grammar.
#[verifier::external_body]
fn parse_i32(s: &str) -> (r: Option<i32>)
    ensures
        match r {
            Some(v) => spec_parse_integer(s@, true, i32::MIN as int, i32::MAX as int) == Some(v as int),
            None => spec_parse_integer(s@, true, i32::MIN as int, i32::MAX as int) is None,
        },
{
    s.parse::<i32>().ok()
}

/// `str::parse::<u32>`: the text read as a decimal `u32`, as `spec_parse_integer`
/// describes its documented grammar.
#[verifier::external_body]
fn parse_u32(s: &str) -> (r: Option<u32>)
    ensures
        match r {
            Some(v) => spec_parse_integer(s@, false, 0, u32::MAX as int) == Some(v as int),
            None => spec_parse_integer(s@, false, 0, u32::MAX as int) is None,
        },
{
    s.parse::<u32>().ok()
}

/// What an integer number field reads from its text: 0 for blank text, else the trimmed
/// text as an integer in the given range.
pub open spec fn spec_parse_field(text: Seq<char>, signed: bool, min: int, max: int) -> Option<int> {
    if trimmed(text).len() == 0 {
        Some(0)
    } else {
        spec_parse_integer(trimmed(text), signed, min, max)
    }
}

/// The value typed into an `i32` field: 0 when blank, `None` when it is not an `i32`.
pub fn parse_i32_zero_empty(text: &str) -> (r: Option<i32>)
    ensures
        match r {
            Some(v) => spec_parse_field(text@, true, i32::MIN as int, i32::MAX as int) == Some(v as int),
            None => spec_parse_field(text@, true, i32::MIN as int, i32::MAX as int) is None,
        },
{
    let chars = chars_of(text);
    let t = trim_chars(chars.as_slice());
    if t.len() == 0 {
        return Some(0);
    }
    let s = string_of(t.as_slice());
    parse_i32(s.as_str())
}

/// The value typed into a `u32` field: 0 when blank, `None` when it is not a `u32`.
pub fn parse_u32_zero_empty(text: &str) -> (r: Option<u32>)
    ensures
        match r {
            Some(v) => spec_parse_field(text@, false, 0, u32::MAX as int) == Some(v as int),
            None => spec_parse_field(text@, false, 0, u32::MAX as int) is None,
        },
{
    let chars = chars_of(text);
    let t = trim_chars(chars.as_slice());
    if t.len() == 0 {
        return Some(0);
    }
    let s = string_of(t.as_slice());
    parse_u32(s.as_str())
}

/// No two tags are equal up to ASCII case.
pub open spec fn tags_distinct(tags: Seq<String>) -> bool {
    forall|i: int, j: int| 0 <= i < j < tags.len() ==> !eq_ignore_ascii_case(#[trigger] tags[i]@, #[trigger] tags[j]@)
}

/// Adding a tag from the new-tag field keeps the tags distinct up to ASCII case: a tag
/// is only appended when none equal to it (up to case) is there.
pub proof fn law_add_tag_keeps_tags_distinct(before: Seq<String>, after: Seq<String>, field: Seq<char>)
    requires
        tags_distinct(before),
        trimmed(field).len() > 0 && !(exists|i: int| 0 <= i < before.len() && eq_ignore_ascii_case(
            #[trigger] before[i]@,
            trimmed(field),
        )) ==> after.len() == before.len() + 1 && after.take(before.len() as int) == before && after.last()@ == trimmed(
            field,
        ),
        !(trimmed(field).len() > 0 && !(exists|i: int| 0 <= i < before.len() && eq_ignore_ascii_case(
            #[trigger] before[i]@,
            trimmed(field),
        ))) ==> after == before,
    ensures
        tags_distinct(after),
{
    if after != before {
        let n = before.len() as int;
        assert forall|i: int, j: int| 0 <= i < j < after.len() implies !eq_ignore_ascii_case(
            #[trigger] after[i]@,
            #[trigger] after[j]@,
        ) by {
            assert(after.take(n)[i] == after[i]);
            if j < n {
                assert(after.take(n)[j] == after[j]);
            } else {
                assert(after[j]@ == trimmed(field));
                assert(before[i] == after[i]);
                if eq_ignore_ascii_case(after[i]@, after[j]@) {
                    assert(eq_ignore_ascii_case(before[i]@, trimmed(field)));
                }
            }
        }
    }
}

pub open spec fn shown_relative(root: Seq<char>, path: Seq<char>) -> Seq<char> {
    match spec_strip_prefix(path, root) {
        Some(r) => r,
        None => path,
    }
}

/// The project settings' path fields as first shown: the asset folder, the scripts
/// assembly and the icon (blank when there is none), each relative to the project root
/// where it lies inside it.
pub struct SettingsPathFields {
    pub asset_dir: String,
    pub scripts_dll: String,
    pub icon_path: String,
}

impl SettingsPathFields {
    pub fn from_project(project: &crate::project::Project) -> (f: SettingsPathFields)
        ensures
            f.asset_dir@ == shown_relative(project.root_dir@, project.asset_dir@),
            f.scripts_dll@ == shown_relative(project.root_dir@, project.scripts_dll@),
            f.icon_path@ == match project.game.icon_path {
                Some(i) => shown_relative(project.root_dir@, i@),
                None => Seq::<char>::empty(),
            },
    {
        let root = project.root_dir.as_str();
        SettingsPathFields {
            asset_dir: display_project_relative_path(root, project.asset_dir.as_str()),
            scripts_dll: display_project_relative_path(root, project.scripts_dll.as_str()),
            icon_path: match &project.game.icon_path {
                Some(i) => display_project_relative_path(root, i.as_str()),
                None => String::new(),
            },
        }
    }
}

} // verus!
