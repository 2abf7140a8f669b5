//! The event dispatcher and the public rendering entry point.
//!
//! The dispatcher consumes events one at a time in a single forward
//! pass, maintaining the render state; when the stream is exhausted,
//! the completed lines join into the normalized output text.  An
//! unflushed pending word at end of stream indicates an unbalanced
//! event stream and aborts the run, as does any construct the
//! formatter has no rules for.

use vstd::prelude::*;
use crate::buffer::{buf_apply_prefix, buf_commit, buf_push_literal, buf_push_word, buf_wrap};
use crate::attrs::{inline_group, render_inline_attrs};
use crate::event::{Attr, Error, Event, attrs_view};
use crate::ends::spec_end;
use crate::prose::{feed_prose, feed_raw, prose_text, raw_text};
use crate::starts::spec_start;
use crate::text::{from_chars, to_chars};
use crate::writer::{concat_seqs, ensure_blank, init_model, RawMode, Writer, WriterModel};
use crate::WriterConfig;

verus! {

/// The effect of one event on the render state, or the error aborting
/// the run.
pub open spec fn spec_event(m: WriterModel, e: Event) -> Result<WriterModel, Error> {
    let p = concat_seqs(m.prefixes);
    match e {
        Event::Start(c, attrs) => spec_start(m, c, attrs_view(attrs@)),
        Event::End(c) => spec_end(m, c),
        Event::Text(s) => {
            match m.raw {
                RawMode::Prose => Ok(WriterModel { buf: prose_text(m.buf, p, s@), ..m }),
                RawMode::Block => {
                    if m.buf.word.len() > 0 {
                        Err(Error::InvariantViolation)
                    } else {
                        Ok(WriterModel { buf: raw_text(m.buf, p, s@), ..m })
                    }
                },
                RawMode::Inline => Ok(WriterModel { buf: buf_push_word(m.buf, s@), ..m }),
            }
        },
        Event::FootnoteReference(label) => Ok(
            WriterModel { buf: buf_push_word(m.buf, ("[^")@ + label@ + ("]")@), ..m },
        ),
        Event::Symbol(name) => Ok(
            WriterModel { buf: buf_push_word(m.buf, (":")@ + name@ + (":")@), ..m },
        ),
        Event::LeftSingleQuote => Ok(WriterModel { buf: buf_push_word(m.buf, ("'")@), ..m }),
        Event::RightSingleQuote => Ok(WriterModel { buf: buf_push_word(m.buf, ("'")@), ..m }),
        Event::LeftDoubleQuote => Ok(WriterModel { buf: buf_push_word(m.buf, ("\"")@), ..m }),
        Event::RightDoubleQuote => Ok(WriterModel { buf: buf_push_word(m.buf, ("\"")@), ..m }),
        Event::Ellipsis => Ok(WriterModel { buf: buf_push_word(m.buf, ("...")@), ..m }),
        Event::EnDash => Ok(WriterModel { buf: buf_push_word(m.buf, ("--")@), ..m }),
        Event::EmDash => Ok(WriterModel { buf: buf_push_word(m.buf, ("---")@), ..m }),
        Event::NonBreakingSpace => Ok(WriterModel { buf: buf_push_word(m.buf, ("\\ ")@), ..m }),
        Event::Softbreak => {
            match m.raw {
                RawMode::Prose => Ok(
                    if m.buf.word.len() > 0 {
                        WriterModel { buf: buf_commit(m.buf, p, true), ..m }
                    } else {
                        m
                    },
                ),
                RawMode::Block => Ok(WriterModel { buf: buf_wrap(m.buf), ..m }),
                RawMode::Inline => Ok(WriterModel { buf: buf_push_word(m.buf, (" ")@), ..m }),
            }
        },
        Event::Hardbreak => {
            match m.raw {
                RawMode::Prose => {
                    let b1 = if m.buf.word.len() > 0 {
                        buf_commit(m.buf, p, false)
                    } else {
                        m.buf
                    };
                    Ok(WriterModel { buf: buf_wrap(buf_push_literal(b1, ("\\")@)), ..m })
                },
                RawMode::Block => Ok(WriterModel { buf: buf_wrap(m.buf), ..m }),
                RawMode::Inline => Ok(WriterModel { buf: buf_push_word(m.buf, (" ")@), ..m }),
            }
        },
        Event::Escape => Ok(WriterModel { buf: buf_push_word(m.buf, ("\\")@), ..m }),
        Event::Blankline => {
            match m.raw {
                RawMode::Block => Ok(WriterModel { buf: buf_wrap(m.buf), ..m }),
                _ => Ok(m),
            }
        },
        Event::ThematicBreak(attrs) => {
            if m.buf.word.len() > 0 {
                Err(Error::InvariantViolation)
            } else {
                let m1 = ensure_blank(m);
                let b1 = buf_push_literal(buf_apply_prefix(m1.buf, p), ("---")@);
                let b2 = if attrs@.len() > 0 {
                    buf_commit(inline_group(b1, p, attrs_view(attrs@)), p, false)
                } else {
                    b1
                };
                Ok(WriterModel { buf: buf_wrap(b2), blank_owed: true, ..m1 })
            }
        },
        Event::Attributes(attrs) => {
            let m1 = ensure_blank(m);
            let b = buf_wrap(buf_commit(inline_group(m1.buf, p, attrs_view(attrs@)), p, false));
            Ok(WriterModel { buf: b, ..m1 })
        },
    }
}

/// Law of the parallel list stacks: the list-kind stack and the
/// index-counter stack are always equally deep — every event either
/// leaves both alone, pushes onto both, or pops both.
#[verifier::rlimit(100)]
pub proof fn lemma_list_stacks_aligned(m: WriterModel, e: Event)
    requires
        m.kinds.len() == m.idxs.len(),
    ensures
        spec_event(m, e) is Ok ==> spec_event(m, e)->Ok_0.kinds.len() == spec_event(
            m,
            e,
        )->Ok_0.idxs.len(),
{
}

/// Every event preserves buffer well-formedness.
#[verifier::rlimit(100)]
pub proof fn lemma_event_wf(m: WriterModel, e: Event)
    requires
        crate::buffer::buf_wf(m.buf),
    ensures
        spec_event(m, e) is Ok ==> crate::buffer::buf_wf(spec_event(m, e)->Ok_0.buf),
{
    let p = concat_seqs(m.prefixes);
    match e {
        Event::Start(c, attrs) => crate::starts::lemma_start_wf(m, c, attrs_view(attrs@)),
        Event::End(c) => crate::ends::lemma_end_wf(m, c),
        Event::Text(s) => {
            match m.raw {
                RawMode::Prose => crate::prose::lemma_prose_wf(m.buf, p, s@),
                RawMode::Block => crate::prose::lemma_raw_wf(m.buf, p, s@),
                RawMode::Inline => {},
            }
        },
        Event::Softbreak => {
            if m.raw is Prose && m.buf.word.len() > 0 {
                crate::buffer::lemma_commit_wf(m.buf, p, true);
            }
        },
        Event::Hardbreak => {
            if m.raw is Prose && m.buf.word.len() > 0 {
                crate::buffer::lemma_commit_wf(m.buf, p, false);
            }
        },
        Event::ThematicBreak(attrs) => {
            let m1 = ensure_blank(m);
            crate::writer::lemma_ensure_blank_wf(m);
            let b1 = buf_push_literal(buf_apply_prefix(m1.buf, p), ("---")@);
            crate::attrs::lemma_inline_group_wf(b1, p, attrs_view(attrs@));
            crate::buffer::lemma_commit_wf(
                crate::attrs::inline_group(b1, p, attrs_view(attrs@)),
                p,
                false,
            );
        },
        Event::Attributes(attrs) => {
            let m1 = ensure_blank(m);
            crate::writer::lemma_ensure_blank_wf(m);
            crate::attrs::lemma_inline_group_wf(m1.buf, p, attrs_view(attrs@));
            crate::buffer::lemma_commit_wf(
                crate::attrs::inline_group(m1.buf, p, attrs_view(attrs@)),
                p,
                false,
            );
        },
        _ => {},
    }
}

/// The render state after a sequence of events, or the error on which
/// the run aborted.
pub open spec fn run_events(m: WriterModel, evs: Seq<Event>) -> Result<WriterModel, Error>
    decreases evs.len(),
{
    if evs.len() == 0 {
        Ok(m)
    } else {
        match run_events(m, evs.drop_last()) {
            Err(e) => Err(e),
            Ok(m1) => spec_event(m1, evs.last()),
        }
    }
}

/// Once a prefix of the stream aborts, the whole stream aborts with
/// the same error.
pub proof fn lemma_run_events_err(m0: WriterModel, evs: Seq<Event>, j: int)
    requires
        0 <= j <= evs.len(),
        run_events(m0, evs.take(j)) is Err,
    ensures
        run_events(m0, evs) == run_events(m0, evs.take(j)),
    decreases evs.len() - j,
{
    if j == evs.len() {
        assert(evs.take(j) =~= evs);
    } else {
        assert(evs.take(j + 1).drop_last() =~= evs.take(j));
        assert(run_events(m0, evs.take(j + 1)) == run_events(m0, evs.take(j)));
        lemma_run_events_err(m0, evs, j + 1);
    }
}

/// Law supporting the wrap-width bound: at every state a formatting
/// run can reach, an empty pending line owes no leading space, so the
/// commit-level wrap-bound law applies throughout the run.
pub proof fn lemma_reachable_wf(max_cols: nat, evs: Seq<Event>)
    ensures
        run_events(init_model(max_cols), evs) is Ok ==> crate::buffer::buf_wf(
            run_events(init_model(max_cols), evs)->Ok_0.buf,
        ),
    decreases evs.len(),
{
    if evs.len() > 0 {
        lemma_reachable_wf(max_cols, evs.drop_last());
        match run_events(init_model(max_cols), evs.drop_last()) {
            Ok(m1) => lemma_event_wf(m1, evs.last()),
            Err(e) => {},
        }
    }
}

/// The completed lines joined into one text, each with its
/// terminator.
pub open spec fn join_lines(lines: Seq<Seq<char>>) -> Seq<char>
    decreases lines.len(),
{
    if lines.len() == 0 {
        Seq::empty()
    } else {
        join_lines(lines.drop_last()) + lines.last() + seq!['\n']
    }
}

/// The text produced at end of stream: an unflushed pending word is an
/// unbalanced-stream error; otherwise any unterminated line flushes,
/// an owed trailing blank line is emitted, and the lines join.
pub open spec fn finish_spec(m: WriterModel) -> Result<Seq<char>, Error> {
    if m.buf.word.len() > 0 {
        Err(Error::InvariantViolation)
    } else {
        let b1 = if m.buf.line.len() > 0 {
            buf_wrap(m.buf)
        } else {
            m.buf
        };
        let b2 = if m.blank_owed {
            buf_wrap(buf_apply_prefix(b1, concat_seqs(m.prefixes)))
        } else {
            b1
        };
        Ok(join_lines(b2.lines))
    }
}

/// The normalized text of a whole event stream at the given wrap
/// width, or the error on which the run aborted.
pub open spec fn render_spec(evs: Seq<Event>, max_cols: nat) -> Result<Seq<char>, Error> {
    match run_events(init_model(max_cols), evs) {
        Err(e) => Err(e),
        Ok(m) => finish_spec(m),
    }
}

impl Writer {
    /// Handles one event of the stream.
    #[verifier::rlimit(60)]
    pub fn handle_event(&mut self, e: &Event) -> (r: Result<(), Error>)
        ensures
            match spec_event(old(self)@, *e) {
                Ok(m) => r is Ok && final(self)@ == m,
                Err(er) => r == Err::<(), Error>(er),
            },
    {
        match e {
            Event::Start(c, attrs) => self.handle_start(c, attrs),
            Event::End(c) => self.handle_end(c),
            Event::Text(s) => {
                let cs = to_chars(s.as_str());
                match self.raw {
                    RawMode::Prose => {
                        let p = self.current_prefix();
                        feed_prose(&mut self.buf, &p, &cs);
                        Ok(())
                    },
                    RawMode::Block => {
                        if self.buf.word.len() > 0 {
                            return Err(Error::InvariantViolation);
                        }
                        let p = self.current_prefix();
                        feed_raw(&mut self.buf, &p, &cs);
                        Ok(())
                    },
                    RawMode::Inline => {
                        self.buf.push_word_chars(cs);
                        Ok(())
                    },
                }
            },
            Event::FootnoteReference(label) => {
                self.buf.push_word("[^");
                self.buf.push_word(label.as_str());
                self.buf.push_word("]");
                proof {
                    assert(self@ =~~= spec_event(old(self)@, *e)->Ok_0);
                }
                Ok(())
            },
            Event::Symbol(name) => {
                self.buf.push_word(":");
                self.buf.push_word(name.as_str());
                self.buf.push_word(":");
                proof {
                    assert(self@ =~~= spec_event(old(self)@, *e)->Ok_0);
                }
                Ok(())
            },
            Event::LeftSingleQuote => {
                self.buf.push_word("'");
                Ok(())
            },
            Event::RightSingleQuote => {
                self.buf.push_word("'");
                Ok(())
            },
            Event::LeftDoubleQuote => {
                self.buf.push_word("\"");
                Ok(())
            },
            Event::RightDoubleQuote => {
                self.buf.push_word("\"");
                Ok(())
            },
            Event::Ellipsis => {
                self.buf.push_word("...");
                Ok(())
            },
            Event::EnDash => {
                self.buf.push_word("--");
                Ok(())
            },
            Event::EmDash => {
                self.buf.push_word("---");
                Ok(())
            },
            Event::NonBreakingSpace => {
                self.buf.push_word("\\ ");
                Ok(())
            },
            Event::Softbreak => {
                match self.raw {
                    RawMode::Prose => {
                        if self.buf.word.len() > 0 {
                            let p = self.current_prefix();
                            self.buf.commit_word(&p, true);
                        }
                        Ok(())
                    },
                    RawMode::Block => {
                        self.buf.wrap_line();
                        Ok(())
                    },
                    RawMode::Inline => {
                        self.buf.push_word(" ");
                        Ok(())
                    },
                }
            },
            Event::Hardbreak => {
                match self.raw {
                    RawMode::Prose => {
                        let p = self.current_prefix();
                        if self.buf.word.len() > 0 {
                            self.buf.commit_word(&p, false);
                        }
                        self.buf.push_literal("\\");
                        self.buf.wrap_line();
                        proof {
                            assert(self@ =~~= spec_event(old(self)@, *e)->Ok_0);
                        }
                        Ok(())
                    },
                    RawMode::Block => {
                        self.buf.wrap_line();
                        Ok(())
                    },
                    RawMode::Inline => {
                        self.buf.push_word(" ");
                        Ok(())
                    },
                }
            },
            Event::Escape => {
                self.buf.push_word("\\");
                Ok(())
            },
            Event::Blankline => {
                match self.raw {
                    RawMode::Block => {
                        self.buf.wrap_line();
                        Ok(())
                    },
                    _ => Ok(()),
                }
            },
            Event::ThematicBreak(attrs) => {
                if self.buf.word.len() > 0 {
                    return Err(Error::InvariantViolation);
                }
                let p = self.current_prefix();
                self.ensure_blankline();
                self.buf.apply_prefix(&p);
                self.buf.push_literal("---");
                if attrs.len() > 0 {
                    render_inline_attrs(&mut self.buf, &p, attrs);
                    self.buf.commit_word(&p, false);
                }
                self.buf.wrap_line();
                self.blank_owed = true;
                proof {
                    assert(self@ =~~= spec_event(old(self)@, *e)->Ok_0);
                }
                Ok(())
            },
            Event::Attributes(attrs) => {
                let p = self.current_prefix();
                self.ensure_blankline();
                render_inline_attrs(&mut self.buf, &p, attrs);
                self.buf.commit_word(&p, false);
                self.buf.wrap_line();
                proof {
                    assert(self@ =~~= spec_event(old(self)@, *e)->Ok_0);
                }
                Ok(())
            },
        }
    }

    /// Finishes the run: flushes what remains and joins the completed
    /// lines into the output text.
    pub fn finish(&mut self) -> (r: Result<String, Error>)
        ensures
            match finish_spec(old(self)@) {
                Ok(s) => r is Ok && r->Ok_0@ == s,
                Err(e) => r == Err::<String, Error>(e),
            },
    {
        if self.buf.word.len() > 0 {
            return Err(Error::InvariantViolation);
        }
        if self.buf.line.len() > 0 {
            self.buf.wrap_line();
        }
        if self.blank_owed {
            let p = self.current_prefix();
            self.buf.apply_prefix(&p);
            self.buf.wrap_line();
        }
        let ghost lines = self.buf@.lines;
        let mut out: Vec<char> = Vec::new();
        let mut i: usize = 0;
        proof {
            assert(lines.take(0int) =~= Seq::<Seq<char>>::empty());
        }
        while i < self.buf.lines.len()
            invariant
                i <= self.buf.lines.len(),
                lines == self.buf@.lines,
                self.buf.lines@.len() == lines.len(),
                forall|k: int| 0 <= k < lines.len() ==> lines[k] == self.buf.lines@[k]@,
                out@ == join_lines(lines.take(i as int)),
            decreases self.buf.lines.len() - i,
        {
            let line = &self.buf.lines[i];
            let mut j: usize = 0;
            let ghost out0 = out@;
            while j < line.len()
                invariant
                    j <= line.len(),
                    out@ =~= out0 + line@.take(j as int),
                decreases line.len() - j,
            {
                out.push(line[j]);
                j = j + 1;
            }
            out.push('\n');
            proof {
                assert(lines.take(i as int + 1).drop_last() =~= lines.take(i as int));
                assert(lines.take(i as int + 1).last() == lines[i as int]);
                assert(out@ =~= join_lines(lines.take(i as int)) + lines[i as int] + seq!['\n']);
            }
            i = i + 1;
        }
        proof {
            assert(lines.take(lines.len() as int) =~= lines);
        }
        Ok(from_chars(&out))
    }
}

/// The rendering engine.
pub struct Renderer {}

impl Renderer {
    /// Creates a rendering engine.
    pub fn new() -> (r: Renderer) {
        Renderer {  }
    }

    /// Formats a whole event stream: walks it in one forward pass and
    /// returns the normalized text, or the error on which the run
    /// aborted.
    pub fn push_offset(&self, events: &Vec<Event>, config: &WriterConfig) -> (r: Result<
        String,
        Error,
    >)
        ensures
            match render_spec(events@, config.max_cols as nat) {
                Ok(s) => r is Ok && r->Ok_0@ == s,
                Err(e) => r is Err && r->Err_0 == e,
            },
    {
        let ghost m0 = init_model(config.max_cols as nat);
        let mut w = Writer::new(config.max_cols);
        let mut i: usize = 0;
        proof {
            assert(events@.take(0int) =~= Seq::<Event>::empty());
        }
        while i < events.len()
            invariant
                i <= events.len(),
                m0 == init_model(config.max_cols as nat),
                run_events(m0, events@.take(i as int)) == Ok::<WriterModel, Error>(w@),
            decreases events.len() - i,
        {
            let res = w.handle_event(&events[i]);
            proof {
                assert(events@.take(i as int + 1).drop_last() =~= events@.take(i as int));
                assert(events@.take(i as int + 1).last() == events@[i as int]);
            }
            match res {
                Ok(()) => {},
                Err(er) => {
                    proof {
                        assert(run_events(m0, events@.take(i as int + 1)) == Err::<
                            WriterModel,
                            Error,
                        >(er));
                        lemma_run_events_err(m0, events@, i as int + 1);
                    }
                    return Err(er);
                },
            }
            i = i + 1;
        }
        proof {
            assert(events@.take(events@.len() as int) =~= events@);
        }
        w.finish()
    }
}

} // verus!
