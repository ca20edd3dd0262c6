//! Icon identifiers.
//!
//! Each icon maps to a cell of a 16x16-cell icon atlas, in declaration order.
use crate::color::Color;
use crate::draw::{DrawCmd, DrawOp};
use vstd::prelude::*;

verus! {

/// Well-known icon identifiers, in atlas order.
#[derive(Debug, Clone, Copy, PartialEq, Eq, Structural, Hash)]
pub enum Icon {
    // Navigation
    Back,
    Forward,
    Home,
    Refresh,
    Close,
    Minimize,
    Maximize,
    // Actions
    Search,
    Settings,
    Menu,
    MoreVertical,
    MoreHorizontal,
    Edit,
    Delete,
    Copy,
    Paste,
    Save,
    Download,
    Upload,
    Share,
    // Status
    CheckCircle,
    Warning,
    Error,
    Info,
    Help,
    Lock,
    Unlock,
    Eye,
    EyeOff,
    Bell,
    BellOff,
    // Media
    Play,
    Pause,
    Stop,
    SkipForward,
    SkipBack,
    VolumeUp,
    VolumeDown,
    VolumeMute,
    Repeat,
    Shuffle,
    // Content
    File,
    Folder,
    FolderOpen,
    Image,
    Document,
    Code,
    Terminal,
    Globe,
    Link,
    ExternalLink,
    Mail,
    Chat,
    // Arrows and indicators
    ArrowUp,
    ArrowDown,
    ArrowLeft,
    ArrowRight,
    ChevronUp,
    ChevronDown,
    ChevronLeft,
    ChevronRight,
    Plus,
    Minus,
    Star,
    StarFilled,
    Heart,
    HeartFilled,
    // System
    Wifi,
    WifiOff,
    Battery,
    BatteryLow,
    Clock,
    Calendar,
    User,
    Users,
    Cpu,
    Memory,
}

/// Cell of an icon in the atlas: its position in declaration order.
pub open spec fn icon_index(icon: Icon) -> u32 {
    match icon {
        Icon::Back => 0,
        Icon::Forward => 1,
        Icon::Home => 2,
        Icon::Refresh => 3,
        Icon::Close => 4,
        Icon::Minimize => 5,
        Icon::Maximize => 6,
        Icon::Search => 7,
        Icon::Settings => 8,
        Icon::Menu => 9,
        Icon::MoreVertical => 10,
        Icon::MoreHorizontal => 11,
        Icon::Edit => 12,
        Icon::Delete => 13,
        Icon::Copy => 14,
        Icon::Paste => 15,
        Icon::Save => 16,
        Icon::Download => 17,
        Icon::Upload => 18,
        Icon::Share => 19,
        Icon::CheckCircle => 20,
        Icon::Warning => 21,
        Icon::Error => 22,
        Icon::Info => 23,
        Icon::Help => 24,
        Icon::Lock => 25,
        Icon::Unlock => 26,
        Icon::Eye => 27,
        Icon::EyeOff => 28,
        Icon::Bell => 29,
        Icon::BellOff => 30,
        Icon::Play => 31,
        Icon::Pause => 32,
        Icon::Stop => 33,
        Icon::SkipForward => 34,
        Icon::SkipBack => 35,
        Icon::VolumeUp => 36,
        Icon::VolumeDown => 37,
        Icon::VolumeMute => 38,
        Icon::Repeat => 39,
        Icon::Shuffle => 40,
        Icon::File => 41,
        Icon::Folder => 42,
        Icon::FolderOpen => 43,
        Icon::Image => 44,
        Icon::Document => 45,
        Icon::Code => 46,
        Icon::Terminal => 47,
        Icon::Globe => 48,
        Icon::Link => 49,
        Icon::ExternalLink => 50,
        Icon::Mail => 51,
        Icon::Chat => 52,
        Icon::ArrowUp => 53,
        Icon::ArrowDown => 54,
        Icon::ArrowLeft => 55,
        Icon::ArrowRight => 56,
        Icon::ChevronUp => 57,
        Icon::ChevronDown => 58,
        Icon::ChevronLeft => 59,
        Icon::ChevronRight => 60,
        Icon::Plus => 61,
        Icon::Minus => 62,
        Icon::Star => 63,
        Icon::StarFilled => 64,
        Icon::Heart => 65,
        Icon::HeartFilled => 66,
        Icon::Wifi => 67,
        Icon::WifiOff => 68,
        Icon::Battery => 69,
        Icon::BatteryLow => 70,
        Icon::Clock => 71,
        Icon::Calendar => 72,
        Icon::User => 73,
        Icon::Users => 74,
        Icon::Cpu => 75,
        Icon::Memory => 76,
    }
}

impl Icon {
    /// Cell of the icon in the atlas.
    pub fn index(self) -> (r: u32)
        ensures
            r == icon_index(self),
            r < 77,
    {
        match self {
            Icon::Back => 0,
            Icon::Forward => 1,
            Icon::Home => 2,
            Icon::Refresh => 3,
            Icon::Close => 4,
            Icon::Minimize => 5,
            Icon::Maximize => 6,
            Icon::Search => 7,
            Icon::Settings => 8,
            Icon::Menu => 9,
            Icon::MoreVertical => 10,
            Icon::MoreHorizontal => 11,
            Icon::Edit => 12,
            Icon::Delete => 13,
            Icon::Copy => 14,
            Icon::Paste => 15,
            Icon::Save => 16,
            Icon::Download => 17,
            Icon::Upload => 18,
            Icon::Share => 19,
            Icon::CheckCircle => 20,
            Icon::Warning => 21,
            Icon::Error => 22,
            Icon::Info => 23,
            Icon::Help => 24,
            Icon::Lock => 25,
            Icon::Unlock => 26,
            Icon::Eye => 27,
            Icon::EyeOff => 28,
            Icon::Bell => 29,
            Icon::BellOff => 30,
            Icon::Play => 31,
            Icon::Pause => 32,
            Icon::Stop => 33,
            Icon::SkipForward => 34,
            Icon::SkipBack => 35,
            Icon::VolumeUp => 36,
            Icon::VolumeDown => 37,
            Icon::VolumeMute => 38,
            Icon::Repeat => 39,
            Icon::Shuffle => 40,
            Icon::File => 41,
            Icon::Folder => 42,
            Icon::FolderOpen => 43,
            Icon::Image => 44,
            Icon::Document => 45,
            Icon::Code => 46,
            Icon::Terminal => 47,
            Icon::Globe => 48,
            Icon::Link => 49,
            Icon::ExternalLink => 50,
            Icon::Mail => 51,
            Icon::Chat => 52,
            Icon::ArrowUp => 53,
            Icon::ArrowDown => 54,
            Icon::ArrowLeft => 55,
            Icon::ArrowRight => 56,
            Icon::ChevronUp => 57,
            Icon::ChevronDown => 58,
            Icon::ChevronLeft => 59,
            Icon::ChevronRight => 60,
            Icon::Plus => 61,
            Icon::Minus => 62,
            Icon::Star => 63,
            Icon::StarFilled => 64,
            Icon::Heart => 65,
            Icon::HeartFilled => 66,
            Icon::Wifi => 67,
            Icon::WifiOff => 68,
            Icon::Battery => 69,
            Icon::BatteryLow => 70,
            Icon::Clock => 71,
            Icon::Calendar => 72,
            Icon::User => 73,
            Icon::Users => 74,
            Icon::Cpu => 75,
            Icon::Memory => 76,
        }
    }
}

/// Different icons sit in different cells.
pub proof fn lemma_icon_index_injective(a: Icon, b: Icon)
    requires
        icon_index(a) == icon_index(b),
    ensures
        a == b,
{
}

/// A texture of square icons laid out row by row, `cols` to a row.
pub struct IconAtlas {
    /// Handle of the atlas texture.
    pub texture: u32,
    /// Width and height of one icon in pixels.
    pub icon_size: u32,
    /// Icons per row.
    pub cols: u32,
}

impl IconAtlas {
    /// An atlas over `texture`.
    pub fn new(texture: u32, icon_size: u32, cols: u32) -> (r: Self)
        ensures
            r.texture == texture,
            r.icon_size == icon_size,
            r.cols == cols,
    {
        IconAtlas { texture, icon_size, cols }
    }

    /// The part of the texture holding `icon`: left, top, width, height.
    pub fn source_rect(&self, icon: Icon) -> (r: (u32, u32, u32, u32))
        requires
            self.cols > 0,
            (icon_index(icon) % self.cols) * self.icon_size <= u32::MAX,
            (icon_index(icon) / self.cols) * self.icon_size <= u32::MAX,
        ensures
            r == (
                ((icon_index(icon) % self.cols) * self.icon_size) as u32,
                ((icon_index(icon) / self.cols) * self.icon_size) as u32,
                self.icon_size,
                self.icon_size,
            ),
    {
        let idx = icon.index();
        let col = idx % self.cols;
        let row = idx / self.cols;
        (col * self.icon_size, row * self.icon_size, self.icon_size, self.icon_size)
    }

    /// Copying `icon` from the atlas onto the square of side `size` at
    /// `(x, y)`, tinted with `tint`.
    pub fn draw_scaled(&self, icon: Icon, x: i32, y: i32, size: u32, tint: Color) -> (r: DrawOp)
        requires
            self.cols > 0,
            (icon_index(icon) % self.cols) * self.icon_size <= u32::MAX,
            (icon_index(icon) / self.cols) * self.icon_size <= u32::MAX,
        ensures
            r@ == (DrawCmd::Blit {
                texture: self.texture,
                sx: ((icon_index(icon) % self.cols) * self.icon_size) as u32,
                sy: ((icon_index(icon) / self.cols) * self.icon_size) as u32,
                sw: self.icon_size,
                sh: self.icon_size,
                x,
                y,
                w: size,
                h: size,
                tint,
            }),
    {
        let (sx, sy, sw, sh) = self.source_rect(icon);
        DrawOp::Blit { texture: self.texture, sx, sy, sw, sh, x, y, w: size, h: size, tint }
    }

    /// Copying `icon` from the atlas at its native size to `(x, y)`,
    /// tinted with `tint`.
    pub fn draw(&self, icon: Icon, x: i32, y: i32, tint: Color) -> (r: DrawOp)
        requires
            self.cols > 0,
            (icon_index(icon) % self.cols) * self.icon_size <= u32::MAX,
            (icon_index(icon) / self.cols) * self.icon_size <= u32::MAX,
        ensures
            r@ == (DrawCmd::Blit {
                texture: self.texture,
                sx: ((icon_index(icon) % self.cols) * self.icon_size) as u32,
                sy: ((icon_index(icon) / self.cols) * self.icon_size) as u32,
                sw: self.icon_size,
                sh: self.icon_size,
                x,
                y,
                w: self.icon_size,
                h: self.icon_size,
                tint,
            }),
    {
        self.draw_scaled(icon, x, y, self.icon_size, tint)
    }
}

} // verus!
