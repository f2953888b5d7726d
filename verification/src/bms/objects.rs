//! The objects and definitions that the processors collect, grouped by processor.
use crate::bms::command::{
    JudgeLevel, LnMode, LnType, ObjId, ObjTime, PlayerMode, PoorMode, StringValue, Volume,
};
use crate::bms::model::{Notes, ObjIdMap, Timeline};
use crate::chart::types::{Argb, BgaLayer};
use vstd::prelude::*;

verus! {

/// A point on an image in pixels.
#[derive(Debug, Clone, Copy, PartialEq, Eq, Hash, Structural)]
pub struct PixelPoint {
    /// The horizontal coordinate.
    pub x: i16,
    /// The vertical coordinate.
    pub y: i16,
}

/// A size in pixels.
#[derive(Debug, Clone, Copy, PartialEq, Eq, Hash, Structural)]
pub struct PixelSize {
    /// The width.
    pub width: u16,
    /// The height.
    pub height: u16,
}

/// An image file with the color to draw transparent.
#[derive(Debug, Clone, PartialEq, Eq)]
pub struct Bmp {
    /// The path of the image.
    pub file: String,
    /// The color drawn transparent.
    pub transparent_color: Argb,
}

/// A cropped image by corners (`#BGAxx`).
#[derive(Debug, Clone, Copy, PartialEq, Eq, Hash, Structural)]
pub struct BgaDef {
    /// The id defined.
    pub id: ObjId,
    /// The image cropped.
    pub source_bmp: ObjId,
    /// The top left corner of the crop.
    pub trim_top_left: PixelPoint,
    /// The bottom right corner of the crop.
    pub trim_bottom_right: PixelPoint,
    /// Where it is drawn.
    pub draw_point: PixelPoint,
}

/// A cropped image by corner and size (`#@BGAxx`).
#[derive(Debug, Clone, Copy, PartialEq, Eq, Hash, Structural)]
pub struct AtBgaDef {
    /// The id defined.
    pub id: ObjId,
    /// The image cropped.
    pub source_bmp: ObjId,
    /// The top left corner of the crop.
    pub trim_top_left: PixelPoint,
    /// The size of the crop.
    pub trim_size: PixelSize,
    /// Where it is drawn.
    pub draw_point: PixelPoint,
}

/// A key bound animation (`#SWBGAxx`).
#[derive(Debug, Clone, PartialEq, Eq)]
pub struct SwBgaEvent {
    /// Frames per second.
    pub frame_rate: u32,
    /// The total time in milliseconds.
    pub total_time: u32,
    /// The key line it is bound to.
    pub line: u8,
    /// Whether it loops.
    pub loop_mode: bool,
    /// The transparent color.
    pub argb: Argb,
    /// The pattern of images.
    pub pattern: String,
}

/// A change of the picture of a layer.
#[derive(Debug, Clone, Copy, PartialEq, Eq, Hash, Structural)]
pub struct BgaObj {
    /// Where it lies.
    pub time: ObjTime,
    /// The picture shown.
    pub id: ObjId,
    /// The layer.
    pub layer: BgaLayer,
}

/// A change of the opacity of a layer.
#[derive(Debug, Clone, Copy, PartialEq, Eq, Hash, Structural)]
pub struct BgaOpacityObj {
    /// Where it lies.
    pub time: ObjTime,
    /// The layer.
    pub layer: BgaLayer,
    /// The opacity from `0` to `255`.
    pub opacity: u8,
}

/// A change of the transparent color of a layer.
#[derive(Debug, Clone, Copy, PartialEq, Eq, Hash, Structural)]
pub struct BgaArgbObj {
    /// Where it lies.
    pub time: ObjTime,
    /// The layer.
    pub layer: BgaLayer,
    /// The color.
    pub argb: Argb,
}

/// A key bound animation started at a position.
#[derive(Debug, Clone, PartialEq, Eq)]
pub struct BgaKeyboundObj {
    /// Where it lies.
    pub time: ObjTime,
    /// The animation.
    pub event: SwBgaEvent,
}

/// Everything about pictures.
#[derive(Debug, Clone)]
pub struct BmpObjects {
    /// `#BMPxx` and `#EXBMPxx`.
    pub bmp_files: ObjIdMap<Bmp>,
    /// `#BGAxx`.
    pub bga_defs: ObjIdMap<BgaDef>,
    /// `#@BGAxx`.
    pub atbga_defs: ObjIdMap<AtBgaDef>,
    /// `#ARGBxx`.
    pub argb_defs: ObjIdMap<Argb>,
    /// `#SWBGAxx`.
    pub swbga_events: ObjIdMap<SwBgaEvent>,
    /// `#BMP00`: the picture shown on a miss.
    pub poor_bmp: Option<String>,
    /// `#POORBGA`.
    pub poor_bga_mode: PoorMode,
    /// Picture changes; the lane is the layer.
    pub bga_changes: Timeline<BgaObj>,
    /// Opacity changes; the lane is the layer.
    pub bga_opacity_changes: Timeline<BgaOpacityObj>,
    /// Transparent color changes; the lane is the layer.
    pub bga_argb_changes: Timeline<BgaArgbObj>,
    /// Key bound animations.
    pub bga_keybound_events: Timeline<BgaKeyboundObj>,
}

impl BmpObjects {
    /// Nothing defined.
    pub fn new() -> (r: Self)
        ensures
            forall|k: int| #[trigger] r.bmp_files.at(k) is None,
            forall|k: int| #[trigger] r.bga_defs.at(k) is None,
            forall|k: int| #[trigger] r.atbga_defs.at(k) is None,
            forall|k: int| #[trigger] r.argb_defs.at(k) is None,
            forall|k: int| #[trigger] r.swbga_events.at(k) is None,
            r.poor_bmp is None,
            r.poor_bga_mode is Interrupt,
            r.bga_changes@.len() == 0,
            r.bga_opacity_changes@.len() == 0,
            r.bga_argb_changes@.len() == 0,
            r.bga_keybound_events@.len() == 0,
    {
        BmpObjects {
            bmp_files: ObjIdMap::new(),
            bga_defs: ObjIdMap::new(),
            atbga_defs: ObjIdMap::new(),
            argb_defs: ObjIdMap::new(),
            swbga_events: ObjIdMap::new(),
            poor_bmp: None,
            poor_bga_mode: PoorMode::Interrupt,
            bga_changes: Timeline::new(),
            bga_opacity_changes: Timeline::new(),
            bga_argb_changes: Timeline::new(),
            bga_keybound_events: Timeline::new(),
        }
    }
}

/// Sounds and the notes that play them.
#[derive(Debug, Clone)]
pub struct WavObjects {
    /// `#WAVxx`.
    pub wav_files: ObjIdMap<String>,
    /// Notes and background sounds.
    pub notes: Notes,
    /// `#EXWAVxx`: sounds with effects.
    pub exwav_defs: ObjIdMap<ExWavDef>,
    /// `#WAVCMD`: effects applied to sounds, by the sound they apply to.
    pub wavcmd_events: ObjIdMap<WavCmdEvent>,
}

impl WavObjects {
    /// Nothing defined.
    pub fn new() -> (r: Self)
        ensures
            forall|k: int| #[trigger] r.wav_files.at(k) is None,
            r.notes@.len() == 0,
            forall|k: int| #[trigger] r.exwav_defs.at(k) is None,
            forall|k: int| #[trigger] r.wavcmd_events.at(k) is None,
    {
        WavObjects {
            wav_files: ObjIdMap::new(),
            notes: Notes::new(),
            exwav_defs: ObjIdMap::new(),
            wavcmd_events: ObjIdMap::new(),
        }
    }
}

/// A sound with effects, `#EXWAVxx`.
#[derive(Debug, Clone, PartialEq, Eq)]
pub struct ExWavDef {
    /// The id it defines.
    pub id: ObjId,
    /// The pan, from -10000 (left) to 10000 (right); 0 when not given.
    pub pan: i64,
    /// The volume, from -10000 to 0; 0 when not given.
    pub volume: i64,
    /// The frequency in hertz, from 100 to 100000, when given.
    pub frequency: Option<u64>,
    /// The sound file.
    pub path: String,
}

/// What a `#WAVCMD` changes.
#[derive(Debug, Clone, Copy, PartialEq, Eq, Hash, Structural)]
pub enum WavCmdParam {
    /// `00`: the relative tone.
    Pitch,
    /// `01`: the relative volume in percent.
    Volume,
    /// `02`: the playback time in units of 0.5 ms (0 keeps the sound's own length).
    Time,
}

/// An effect applied to a sound, `#WAVCMD command id value`.
#[derive(Debug, Clone, Copy, PartialEq, Eq, Hash, Structural)]
pub struct WavCmdEvent {
    /// What it changes.
    pub param: WavCmdParam,
    /// The sound it applies to.
    pub wav_index: ObjId,
    /// The value.
    pub value: u32,
}

/// A tempo change.
#[derive(Debug, Clone, PartialEq, Eq)]
pub struct BpmChangeObj {
    /// Where it lies.
    pub time: ObjTime,
    /// The new tempo, as written.
    pub bpm: StringValue,
}

/// Tempo definitions and changes.
#[derive(Debug, Clone)]
pub struct BpmObjects {
    /// `#BPM`: the tempo at the start.
    pub bpm: Option<StringValue>,
    /// `#BPMxx` and `#EXBPMxx`.
    pub bpm_defs: ObjIdMap<StringValue>,
    /// `#BASEBPM`.
    pub base_bpm: Option<StringValue>,
    /// Tempo changes.
    pub bpm_changes: Timeline<BpmChangeObj>,
    /// The ids that tempo changes refer to.
    pub bpm_change_ids_used: ObjIdMap<()>,
}

impl BpmObjects {
    /// Nothing defined.
    pub fn new() -> (r: Self)
        ensures
            r.bpm is None,
            r.base_bpm is None,
            forall|k: int| #[trigger] r.bpm_defs.at(k) is None,
            forall|k: int| #[trigger] r.bpm_change_ids_used.at(k) is None,
            r.bpm_changes@.len() == 0,
    {
        BpmObjects {
            bpm: None,
            bpm_defs: ObjIdMap::new(),
            base_bpm: None,
            bpm_changes: Timeline::new(),
            bpm_change_ids_used: ObjIdMap::new(),
        }
    }
}

/// A stop of the scroll.
#[derive(Debug, Clone, PartialEq, Eq)]
pub struct StopObj {
    /// Where it lies.
    pub time: ObjTime,
    /// Its length in 192nd notes, as written.
    pub duration: StringValue,
}

/// A stop given by position and milliseconds (`#STP`).
#[derive(Debug, Clone, Copy, PartialEq, Eq, Hash, Structural)]
pub struct StpEvent {
    /// Where it lies.
    pub time: ObjTime,
    /// Its length in milliseconds.
    pub duration_ms: u64,
}

/// Stop definitions and stops.
#[derive(Debug, Clone)]
pub struct StopObjects {
    /// `#STOPxx`.
    pub stop_defs: ObjIdMap<StringValue>,
    /// Stops, in the order they were given.
    pub stops: Vec<StopObj>,
    /// The ids that stops refer to.
    pub stop_ids_used: ObjIdMap<()>,
    /// `#STP` events.
    pub stp_events: Timeline<StpEvent>,
}

impl StopObjects {
    /// Nothing defined.
    pub fn new() -> (r: Self)
        ensures
            forall|k: int| #[trigger] r.stop_defs.at(k) is None,
            forall|k: int| #[trigger] r.stop_ids_used.at(k) is None,
            r.stops@.len() == 0,
            r.stp_events@.len() == 0,
    {
        StopObjects {
            stop_defs: ObjIdMap::new(),
            stops: Vec::new(),
            stop_ids_used: ObjIdMap::new(),
            stp_events: Timeline::new(),
        }
    }
}

/// A change of the scrolling factor.
#[derive(Debug, Clone, PartialEq, Eq)]
pub struct ScrollingFactorObj {
    /// Where it lies.
    pub time: ObjTime,
    /// The factor, as written.
    pub factor: StringValue,
}

/// Scrolling factor definitions and changes.
#[derive(Debug, Clone)]
pub struct ScrollObjects {
    /// `#SCROLLxx`.
    pub scroll_defs: ObjIdMap<StringValue>,
    /// Changes.
    pub scrolling_factor_changes: Timeline<ScrollingFactorObj>,
}

impl ScrollObjects {
    /// Nothing defined.
    pub fn new() -> (r: Self)
        ensures
            forall|k: int| #[trigger] r.scroll_defs.at(k) is None,
            r.scrolling_factor_changes@.len() == 0,
    {
        ScrollObjects { scroll_defs: ObjIdMap::new(), scrolling_factor_changes: Timeline::new() }
    }
}

/// A change of the spacing factor.
#[derive(Debug, Clone, PartialEq, Eq)]
pub struct SpeedObj {
    /// Where it lies.
    pub time: ObjTime,
    /// The factor, as written.
    pub factor: StringValue,
}

/// Spacing factor definitions and changes.
#[derive(Debug, Clone)]
pub struct SpeedObjects {
    /// `#SPEEDxx`.
    pub speed_defs: ObjIdMap<StringValue>,
    /// Changes.
    pub speed_factor_changes: Timeline<SpeedObj>,
}

impl SpeedObjects {
    /// Nothing defined.
    pub fn new() -> (r: Self)
        ensures
            forall|k: int| #[trigger] r.speed_defs.at(k) is None,
            r.speed_factor_changes@.len() == 0,
    {
        SpeedObjects { speed_defs: ObjIdMap::new(), speed_factor_changes: Timeline::new() }
    }
}

/// A judge rank definition (`#EXRANKxx`).
#[derive(Debug, Clone, Copy, PartialEq, Eq, Hash, Structural)]
pub struct ExRankDef {
    /// The id defined.
    pub id: ObjId,
    /// The rank.
    pub judge_level: JudgeLevel,
}

/// A change of the judge rank.
#[derive(Debug, Clone, Copy, PartialEq, Eq, Hash, Structural)]
pub struct JudgeObj {
    /// Where it lies.
    pub time: ObjTime,
    /// The rank.
    pub judge_level: JudgeLevel,
}

/// Judge rank and gauge.
#[derive(Debug, Clone)]
pub struct JudgeObjects {
    /// `#RANK`.
    pub rank: Option<JudgeLevel>,
    /// `#EXRANKxx` and `#DEFEXRANK`.
    pub exrank_defs: ObjIdMap<ExRankDef>,
    /// `#TOTAL`, as written.
    pub total: Option<StringValue>,
    /// Rank changes.
    pub judge_events: Timeline<JudgeObj>,
}

impl JudgeObjects {
    /// Nothing defined.
    pub fn new() -> (r: Self)
        ensures
            r.rank is None,
            r.total is None,
            forall|k: int| #[trigger] r.exrank_defs.at(k) is None,
            r.judge_events@.len() == 0,
    {
        JudgeObjects {
            rank: None,
            exrank_defs: ObjIdMap::new(),
            total: None,
            judge_events: Timeline::new(),
        }
    }
}

/// A text shown at a position.
#[derive(Debug, Clone, PartialEq, Eq)]
pub struct TextObj {
    /// Where it lies.
    pub time: ObjTime,
    /// The text.
    pub text: String,
}

/// Texts.
#[derive(Debug, Clone)]
pub struct TextObjects {
    /// `#TEXTxx` and `#SONGxx`.
    pub texts: ObjIdMap<String>,
    /// Texts shown.
    pub text_events: Timeline<TextObj>,
}

impl TextObjects {
    /// Nothing defined.
    pub fn new() -> (r: Self)
        ensures
            forall|k: int| #[trigger] r.texts.at(k) is None,
            r.text_events@.len() == 0,
    {
        TextObjects { texts: ObjIdMap::new(), text_events: Timeline::new() }
    }
}

/// An option change at a position.
#[derive(Debug, Clone, PartialEq, Eq)]
pub struct OptionObj {
    /// Where it lies.
    pub time: ObjTime,
    /// The option.
    pub option: String,
}

/// Player options.
#[derive(Debug, Clone)]
pub struct OptionObjects {
    /// `#OPTION` lines.
    pub options: Option<Vec<String>>,
    /// `#CHANGEOPTIONxx`.
    pub change_options: ObjIdMap<String>,
    /// Option changes.
    pub option_events: Timeline<OptionObj>,
}

impl OptionObjects {
    /// Nothing defined.
    pub fn new() -> (r: Self)
        ensures
            r.options is None,
            forall|k: int| #[trigger] r.change_options.at(k) is None,
            r.option_events@.len() == 0,
    {
        OptionObjects { options: None, change_options: ObjIdMap::new(), option_events: Timeline::new() }
    }
}

/// A seek of the video.
#[derive(Debug, Clone, PartialEq, Eq)]
pub struct SeekObj {
    /// Where it lies.
    pub time: ObjTime,
    /// The position sought, as written.
    pub position: StringValue,
}

/// The background video.
#[derive(Debug, Clone)]
pub struct Video {
    /// `#VIDEOFILE` or `#MOVIE`.
    pub video_file: Option<String>,
    /// `#VIDEOF/S`, as written.
    pub video_fs: Option<StringValue>,
    /// `#VIDEOCOLORS`.
    pub video_colors: Option<u8>,
    /// `#VIDEODLY`, as written.
    pub video_dly: Option<StringValue>,
    /// `#SEEKxx`.
    pub seek_defs: ObjIdMap<StringValue>,
    /// Seeks.
    pub seek_events: Timeline<SeekObj>,
}

impl Video {
    /// Nothing defined.
    pub fn new() -> (r: Self)
        ensures
            r.video_file is None,
            r.video_fs is None,
            r.video_colors is None,
            r.video_dly is None,
            forall|k: int| #[trigger] r.seek_defs.at(k) is None,
            r.seek_events@.len() == 0,
    {
        Video {
            video_file: None,
            video_fs: None,
            video_colors: None,
            video_dly: None,
            seek_defs: ObjIdMap::new(),
            seek_events: Timeline::new(),
        }
    }
}

/// A change of the background music volume.
#[derive(Debug, Clone, Copy, PartialEq, Eq, Hash, Structural)]
pub struct BgmVolumeObj {
    /// Where it lies.
    pub time: ObjTime,
    /// The volume.
    pub volume: u8,
}

/// A change of the key sound volume.
#[derive(Debug, Clone, Copy, PartialEq, Eq, Hash, Structural)]
pub struct KeyVolumeObj {
    /// Where it lies.
    pub time: ObjTime,
    /// The volume.
    pub volume: u8,
}

/// Volumes.
#[derive(Debug, Clone)]
pub struct VolumeObjects {
    /// `#VOLWAV`.
    pub volume: Volume,
    /// Background music volume changes.
    pub bgm_volume_changes: Timeline<BgmVolumeObj>,
    /// Key sound volume changes.
    pub key_volume_changes: Timeline<KeyVolumeObj>,
}

impl VolumeObjects {
    /// The full volume and no change.
    pub fn new() -> (r: Self)
        ensures
            r.volume.relative_percent == 100,
            r.bgm_volume_changes@.len() == 0,
            r.key_volume_changes@.len() == 0,
    {
        VolumeObjects {
            volume: Volume { relative_percent: 100 },
            bgm_volume_changes: Timeline::new(),
            key_volume_changes: Timeline::new(),
        }
    }
}

/// Information about the score file.
#[derive(Debug, Clone, PartialEq, Eq)]
pub struct Metadata {
    /// `#PLAYER`.
    pub player: Option<PlayerMode>,
    /// `#DIFFICULTY`.
    pub difficulty: Option<u8>,
    /// `#PLAYLEVEL`.
    pub play_level: Option<u8>,
    /// `#EMAIL` or `%EMAIL`.
    pub email: Option<String>,
    /// `#URL` or `%URL`.
    pub url: Option<String>,
    /// `#PATH_WAV`.
    pub wav_path_root: Option<String>,
    /// `#DIVIDEPROP`.
    pub divide_prop: Option<String>,
    /// `#OCT/FP`.
    pub is_octave: bool,
}

impl Metadata {
    /// Nothing defined.
    pub fn new() -> (r: Self)
        ensures
            r.player is None && r.difficulty is None && r.play_level is None && r.email is None
                && r.url is None && r.wav_path_root is None && r.divide_prop is None
                && !r.is_octave,
    {
        Metadata {
            player: None,
            difficulty: None,
            play_level: None,
            email: None,
            url: None,
            wav_path_root: None,
            divide_prop: None,
            is_octave: false,
        }
    }
}

/// Information about the music.
#[derive(Debug, Clone, PartialEq, Eq)]
pub struct MusicInfo {
    /// `#GENRE`.
    pub genre: Option<String>,
    /// `#TITLE`.
    pub title: Option<String>,
    /// `#SUBTITLE`.
    pub subtitle: Option<String>,
    /// `#ARTIST`.
    pub artist: Option<String>,
    /// `#SUBARTIST`.
    pub sub_artist: Option<String>,
    /// `#COMMENT` lines.
    pub comment: Option<Vec<String>>,
    /// `#MAKER`.
    pub maker: Option<String>,
    /// `#PREVIEW`.
    pub preview_music: Option<String>,
}

impl MusicInfo {
    /// Nothing defined.
    pub fn new() -> (r: Self)
        ensures
            r.genre is None && r.title is None && r.subtitle is None && r.artist is None
                && r.sub_artist is None && r.comment is None && r.maker is None
                && r.preview_music is None,
    {
        MusicInfo {
            genre: None,
            title: None,
            subtitle: None,
            artist: None,
            sub_artist: None,
            comment: None,
            maker: None,
            preview_music: None,
        }
    }
}

/// Other resources.
#[derive(Debug, Clone, PartialEq, Eq)]
pub struct Resources {
    /// `#MIDIFILE`.
    pub midi_file: Option<String>,
    /// `#CDDA` tracks.
    pub cdda: Vec<u64>,
    /// `#MATERIALSWAV` paths.
    pub materials_wav: Vec<String>,
    /// `#MATERIALSBMP` paths.
    pub materials_bmp: Vec<String>,
    /// `#MATERIALS`.
    pub materials_path: Option<String>,
}

impl Resources {
    /// Nothing defined.
    pub fn new() -> (r: Self)
        ensures
            r.midi_file is None && r.cdda@.len() == 0 && r.materials_wav@.len() == 0
                && r.materials_bmp@.len() == 0 && r.materials_path is None,
    {
        Resources {
            midi_file: None,
            cdda: Vec::new(),
            materials_wav: Vec::new(),
            materials_bmp: Vec::new(),
            materials_path: None,
        }
    }
}

/// An extended character sprite (`#EXTCHR`).
#[derive(Debug, Clone, Copy, PartialEq, Eq, Hash, Structural)]
pub struct ExtChrEvent {
    /// The sprite number.
    pub sprite_num: i32,
    /// The image number.
    pub bmp_num: i32,
    /// The left of the source.
    pub start_x: i32,
    /// The top of the source.
    pub start_y: i32,
    /// The right of the source.
    pub end_x: i32,
    /// The bottom of the source.
    pub end_y: i32,
    /// The horizontal offset.
    pub offset_x: Option<i32>,
    /// The vertical offset.
    pub offset_y: Option<i32>,
    /// The absolute horizontal position.
    pub abs_x: Option<i32>,
    /// The absolute vertical position.
    pub abs_y: Option<i32>,
}

/// Images around the play field.
#[derive(Debug, Clone, PartialEq, Eq)]
pub struct Sprites {
    /// `#BANNER`.
    pub banner: Option<String>,
    /// `#BACKBMP`.
    pub back_bmp: Option<String>,
    /// `#STAGEFILE`.
    pub stage_file: Option<String>,
    /// `#CHARFILE`.
    pub char_file: Option<String>,
    /// `#EXTCHR` events.
    pub extchr_events: Vec<ExtChrEvent>,
}

impl Sprites {
    /// Nothing defined.
    pub fn new() -> (r: Self)
        ensures
            r.banner is None && r.back_bmp is None && r.stage_file is None && r.char_file is None
                && r.extchr_events@.len() == 0,
    {
        Sprites {
            banner: None,
            back_bmp: None,
            stage_file: None,
            char_file: None,
            extchr_events: Vec::new(),
        }
    }
}

/// How the source was written.
#[derive(Debug, Clone, PartialEq, Eq)]
pub struct BmsSourceRepresentation {
    /// Every header command line, as `#NAME args`.
    pub raw_command_lines: Vec<String>,
    /// `#LNMODE`.
    pub ln_mode: LnMode,
    /// `#LNTYPE`.
    pub ln_type: LnType,
    /// `#CHARSET`.
    pub charset: Option<String>,
}

impl BmsSourceRepresentation {
    /// Nothing recorded.
    pub fn new() -> (r: Self)
        ensures
            r.raw_command_lines@.len() == 0 && r.ln_mode is Ln && r.ln_type is Rdm
                && r.charset is None,
    {
        BmsSourceRepresentation {
            raw_command_lines: Vec::new(),
            ln_mode: LnMode::Ln,
            ln_type: LnType::Rdm,
            charset: None,
        }
    }
}

/// A change of the length of a section.
#[derive(Debug, Clone, PartialEq, Eq)]
pub struct SectionLenChangeObj {
    /// The track whose length changes.
    pub track: crate::bms::command::Track,
    /// The length relative to 4/4, as written.
    pub length: StringValue,
}

/// Section lengths.
#[derive(Debug, Clone)]
pub struct SectionLenObjects {
    /// Changes, at the start of their tracks.
    pub section_len_changes: Timeline<SectionLenChangeObj>,
}

impl SectionLenObjects {
    /// No change.
    pub fn new() -> (r: Self)
        ensures
            r.section_len_changes@.len() == 0,
    {
        SectionLenObjects { section_len_changes: Timeline::new() }
    }
}

} // verus!
