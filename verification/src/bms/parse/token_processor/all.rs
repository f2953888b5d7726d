//! All the processors of a score in turn, collecting one `Bms`.
use crate::bms::error::{ParseErrorWithRange, ParseWarningWithRange};
use crate::bms::layout::KeyLayoutMapper;
use crate::bms::lex::TokenWithRange;
use crate::bms::model::Bms;
use crate::bms::parse::token_processor::bmp::BmpProcessor;
use crate::bms::parse::token_processor::bpm::BpmProcessor;
use crate::bms::parse::token_processor::judge::JudgeProcessor;
use crate::bms::parse::token_processor::metadata::MetadataProcessor;
use crate::bms::parse::token_processor::music_info::MusicInfoProcessor;
use crate::bms::parse::token_processor::option::OptionProcessor;
use crate::bms::parse::token_processor::repr::RepresentationProcessor;
use crate::bms::parse::token_processor::resources::ResourcesProcessor;
use crate::bms::parse::token_processor::scroll::ScrollProcessor;
use crate::bms::parse::token_processor::section_len::SectionLenProcessor;
use crate::bms::parse::token_processor::speed::SpeedProcessor;
use crate::bms::parse::token_processor::sprite::SpriteProcessor;
use crate::bms::parse::token_processor::stop::StopProcessor;
use crate::bms::parse::token_processor::text::TextProcessor;
use crate::bms::parse::token_processor::video::VideoProcessor;
use crate::bms::parse::token_processor::volume::VolumeProcessor;
use crate::bms::parse::token_processor::wav::WavProcessor;
use crate::bms::parse::token_processor::{
    bmp, bpm, judge, metadata, music_info, option, repr, resources, scroll, section_len, speed, sprite,
    stop, text, video, volume, wav,
};
use crate::bms::parse::TokenProcessor;
use crate::bms::prompt::Prompter;
use std::marker::PhantomData;
use vstd::prelude::*;

verus! {

/// The processor of a whole score: the representation first, which tells whether object
/// ids are read in base 62, then every other processor over the same tokens. Note channels
/// are read in the layout `T`.
pub struct BmsTokenProcessor<T> {
    /// The layout that note channels are read in.
    pub layout: PhantomData<T>,
}

impl<T: KeyLayoutMapper> BmsTokenProcessor<T> {
    /// The processor of a whole score.
    pub fn new() -> (r: Self) {
        BmsTokenProcessor { layout: PhantomData }
    }
}

/// Moves the warnings of one processor after those already collected.
fn append_warnings(out: &mut Vec<ParseWarningWithRange>, more: Vec<ParseWarningWithRange>)
    ensures
        final(out)@ == old(out)@ + more@,
{
    let mut more = more;
    out.append(&mut more);
}

/// The score that the processors make of a token stream, with its warnings: each part is
/// what its processor makes of the same tokens, object ids read case sensitively exactly
/// when the representation's processor found so, and the warnings of the parts follow one
/// another in the order of the parts. Nothing is randomized.
pub open spec fn composed<T: KeyLayoutMapper, P: Prompter>(
    tokens: Seq<TokenWithRange>,
    prompter: P,
    bms: Bms,
    ws: Seq<ParseWarningWithRange>,
) -> bool {
    exists|cs: bool, w: Seq<Seq<ParseWarningWithRange>>|
        {
            &&& w.len() == 17
            &&& repr::processed(tokens, (bms.repr, cs), w[0])
            &&& metadata::processed(tokens, prompter, bms.metadata, w[1])
            &&& music_info::processed(tokens, prompter, bms.music_info, w[2])
            &&& resources::processed(tokens, prompter, bms.resources, w[3])
            &&& option::processed(cs, tokens, prompter, bms.option, w[4])
            &&& bpm::processed(cs, tokens, prompter, bms.bpm, w[5])
            &&& stop::processed(cs, tokens, prompter, bms.stop, w[6])
            &&& scroll::processed(cs, tokens, prompter, bms.scroll, w[7])
            &&& speed::processed(cs, tokens, prompter, bms.speed, w[8])
            &&& judge::processed(cs, tokens, prompter, bms.judge, w[9])
            &&& text::processed(cs, tokens, prompter, bms.text, w[10])
            &&& video::processed(cs, tokens, prompter, bms.video, w[11])
            &&& volume::processed(tokens, prompter, bms.volume, w[12])
            &&& bmp::processed(cs, tokens, prompter, bms.bmp, w[13])
            &&& sprite::processed(tokens, prompter, bms.sprite, w[14])
            &&& wav::processed::<T, P>(cs, tokens, prompter, bms.wav, w[15])
            &&& section_len::processed(tokens, prompter, bms.section_len, w[16])
            &&& bms.randomized@.len() == 0
            &&& ws == w[0] + w[1] + w[2] + w[3] + w[4] + w[5] + w[6] + w[7] + w[8] + w[9] + w[10] + w[11] + w[12] + w[13] + w[14] + w[15] + w[16]
        }
}

impl<T: KeyLayoutMapper, P: Prompter> TokenProcessor<P> for BmsTokenProcessor<T> {
    type Output = Bms;

    open spec fn outcome(
        &self,
        tokens: Seq<TokenWithRange>,
        prompter: P,
        r: Result<(Bms, Vec<ParseWarningWithRange>), ParseErrorWithRange>,
    ) -> bool {
        r matches Ok((bms, ws)) && composed::<T, P>(tokens, prompter, bms, ws@)
    }

    fn process(&self, tokens: &[TokenWithRange], prompter: &P) -> (r: Result<
        (Bms, Vec<ParseWarningWithRange>),
        ParseErrorWithRange,
    >)
        ensures
            r matches Ok((bms, ws)) && composed::<T, P>(tokens@, *prompter, bms, ws@),
    {
        let (repr, cs, mut warnings) = RepresentationProcessor::new().read(tokens, prompter);
        let ghost mut w: Seq<Seq<ParseWarningWithRange>> = seq![warnings@];
        let (metadata, more) = MetadataProcessor.process(tokens, prompter)?;
        proof {
            w = w.push(more@);
        }
        append_warnings(&mut warnings, more);
        let (music_info, more) = MusicInfoProcessor.process(tokens, prompter)?;
        proof {
            w = w.push(more@);
        }
        append_warnings(&mut warnings, more);
        let (resources, more) = ResourcesProcessor.process(tokens, prompter)?;
        proof {
            w = w.push(more@);
        }
        append_warnings(&mut warnings, more);
        let (option, more) = OptionProcessor::new(cs).process(tokens, prompter)?;
        proof {
            w = w.push(more@);
        }
        append_warnings(&mut warnings, more);
        let (bpm, more) = BpmProcessor::new(cs).process(tokens, prompter)?;
        proof {
            w = w.push(more@);
        }
        append_warnings(&mut warnings, more);
        let (stop, more) = StopProcessor::new(cs).process(tokens, prompter)?;
        proof {
            w = w.push(more@);
        }
        append_warnings(&mut warnings, more);
        let (scroll, more) = ScrollProcessor::new(cs).process(tokens, prompter)?;
        proof {
            w = w.push(more@);
        }
        append_warnings(&mut warnings, more);
        let (speed, more) = SpeedProcessor::new(cs).process(tokens, prompter)?;
        proof {
            w = w.push(more@);
        }
        append_warnings(&mut warnings, more);
        let (judge, more) = JudgeProcessor::new(cs).process(tokens, prompter)?;
        proof {
            w = w.push(more@);
        }
        append_warnings(&mut warnings, more);
        let (text, more) = TextProcessor::new(cs).process(tokens, prompter)?;
        proof {
            w = w.push(more@);
        }
        append_warnings(&mut warnings, more);
        let (video, more) = VideoProcessor::new(cs).process(tokens, prompter)?;
        proof {
            w = w.push(more@);
        }
        append_warnings(&mut warnings, more);
        let (volume, more) = VolumeProcessor.process(tokens, prompter)?;
        proof {
            w = w.push(more@);
        }
        append_warnings(&mut warnings, more);
        let (bmp, more) = BmpProcessor::new(cs).process(tokens, prompter)?;
        proof {
            w = w.push(more@);
        }
        append_warnings(&mut warnings, more);
        let (sprite, more) = SpriteProcessor.process(tokens, prompter)?;
        proof {
            w = w.push(more@);
        }
        append_warnings(&mut warnings, more);
        let (wav, more) = WavProcessor::<T>::new(cs).process(tokens, prompter)?;
        proof {
            w = w.push(more@);
        }
        append_warnings(&mut warnings, more);
        let (section_len, more) = SectionLenProcessor.process(tokens, prompter)?;
        proof {
            w = w.push(more@);
        }
        append_warnings(&mut warnings, more);
        let bms = Bms {
            repr,
            metadata,
            music_info,
            resources,
            option,
            bpm,
            stop,
            scroll,
            speed,
            judge,
            text,
            video,
            volume,
            bmp,
            sprite,
            wav,
            section_len,
            randomized: Vec::new(),
        };
        proof {
            let tk = tokens@;
            let pr = *prompter;
            assert(repr::processed(tk, (bms.repr, cs), w[0]));
            assert(warnings@ == w[0] + w[1] + w[2] + w[3] + w[4] + w[5] + w[6] + w[7] + w[8] + w[9] + w[10] + w[11] + w[12] + w[13] + w[14] + w[15] + w[16]);
            assert(composed::<T, P>(tk, pr, bms, warnings@));
        }
        Ok((bms, warnings))
    }
}

} // verus!
